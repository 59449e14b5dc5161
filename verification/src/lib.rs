use vstd::prelude::*;

pub mod builder;
pub mod convert;
pub mod error;
pub mod reader;
pub mod round_trip;
pub mod text;
pub mod tree;

pub use convert::{text_as_kdl, text_from_kdl, AsKdlValue, FloatBits, FromKdlValue};

verus! {

/// A type that names the kind of node it is written as.
pub trait NodeId {
    fn id() -> &'static str where Self: Sized;

    fn get_id(&self) -> &'static str;
}

/// A type that can be read from a node, through a reader that stands on it.
pub trait FromKdlNode<'doc, Context>: Sized {
    type Error;

    /// Whether a reader found in the state `before` may be left in the
    /// state `after` with `result` handed back. A type that says nothing
    /// here promises nothing of its decoding.
    open spec fn decoded(
        before: reader::NodeState<Context>,
        after: reader::NodeState<Context>,
        result: Result<Self, Self::Error>,
    ) -> bool {
        true
    }

    fn from_kdl(node: &mut reader::Node<'doc, Context>) -> (result: Result<Self, Self::Error>)
        ensures
            Self::decoded(old(node)@, final(node)@, result),
    ;
}

/// A type that can be written as a node under construction.
pub trait AsKdlNode {
    /// Whether `node` may be what `self` is written as. A type that says
    /// nothing here promises nothing of its encoding.
    open spec fn encodes(&self, node: builder::NodeView) -> bool {
        true
    }

    fn as_kdl(&self) -> (node: builder::Node)
        ensures
            self.encodes(node@),
    ;
}

impl<V: AsKdlNode> AsKdlNode for &V {
    open spec fn encodes(&self, node: builder::NodeView) -> bool {
        (**self).encodes(node)
    }

    fn as_kdl(&self) -> (node: builder::Node) {
        (*self).as_kdl()
    }
}

impl<V: AsKdlNode> AsKdlNode for Option<V> {
    open spec fn encodes(&self, node: builder::NodeView) -> bool {
        match self {
            None => node == builder::empty(),
            Some(value) => value.encodes(node),
        }
    }

    fn as_kdl(&self) -> (node: builder::Node) {
        match self {
            None => builder::Node::default(),
            Some(value) => value.as_kdl(),
        }
    }
}

} // verus!
