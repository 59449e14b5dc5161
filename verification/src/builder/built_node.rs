//! A finished child on its way into a parent, with the policy that decides
//! whether it gets there.
use crate::tree;
use vstd::prelude::*;

verus! {

/// A finished node, if there is one, and whether a node that holds nothing
/// is to be left out.
pub struct BuiltNode {
    node: Option<tree::Node>,
    omit_if_empty: bool,
}

impl BuiltNode {
    /// The node that goes into the parent: none where there is none, and
    /// none where it holds nothing and such nodes are left out.
    pub closed spec fn kept(&self) -> Option<tree::NodeView> {
        match self.node {
            Some(node) => if self.omit_if_empty && super::is_bare(node@) {
                None
            } else {
                Some(node@)
            },
            None => None,
        }
    }

    /// A finished node, if there is one, with its policy.
    pub fn new(node: Option<tree::Node>, omit_if_empty: bool) -> (r: Self)
        ensures
            r.kept() == match node {
                Some(n) => if omit_if_empty && super::is_bare(n@) {
                    None
                } else {
                    Some(n@)
                },
                None => None,
            },
    {
        BuiltNode { node, omit_if_empty }
    }

    /// The node that goes into the parent, if any does.
    pub fn into_node(self) -> (r: Option<tree::Node>)
        ensures
            tree::node_view_opt(r) == self.kept(),
    {
        match self.node {
            None => None,
            Some(node) => {
                if !self.omit_if_empty {
                    return Some(node);
                }
                proof {
                    tree::lemma_node_view(node);
                }
                let has_children = match &node.children {
                    Some(doc) => !doc.nodes.is_empty(),
                    None => false,
                };
                let is_empty = node.entries.is_empty() && !has_children;
                if is_empty {
                    None
                } else {
                    Some(node)
                }
            },
        }
    }
}

/// What goes into the parent of a child that `child` becomes under `name`.
pub open spec fn kept_of(child: super::NodeView, name: Seq<char>, omit_if_empty: bool) -> Option<
    tree::NodeView,
> {
    if omit_if_empty && super::is_bare(super::built(child, name)) {
        None
    } else {
        Some(super::built(child, name))
    }
}

/// Finished children on their way into a parent, in their order.
pub struct BuiltNodeList(pub Vec<BuiltNode>);

impl BuiltNodeList {
    /// What goes into the parent of each child.
    pub open spec fn kept(&self) -> Seq<Option<tree::NodeView>> {
        self.0@.map_values(|b: BuiltNode| b.kept())
    }

    /// Each of `children`, finished under `name`.
    pub fn new(name: &str, children: Vec<super::Node>, omit_if_empty: bool) -> (r: Self)
        ensures
            r.kept() == children@.map_values(
                |c: super::Node| kept_of(c@, name@, omit_if_empty),
            ),
    {
        let ghost all = children@;
        let mut rest = children;
        let mut list: Vec<BuiltNode> = Vec::new();
        proof {
            assert(all.skip(0) =~= all);
        }
        while rest.len() > 0
            invariant
                list@.len() <= all.len(),
                rest@ == all.skip(list@.len() as int),
                list@.map_values(|b: BuiltNode| b.kept()) == all.take(list@.len() as int).map_values(
                    |c: super::Node| kept_of(c@, name@, omit_if_empty),
                ),
            decreases rest@.len(),
        {
            let ghost done = list@;
            let child = rest.remove(0);
            let node = child.build(name);
            list.push(BuiltNode::new(Some(node), omit_if_empty));
            proof {
                assert(rest@ =~= all.skip(list@.len() as int));
                assert(list@.map_values(|b: BuiltNode| b.kept()) =~= done.map_values(
                    |b: BuiltNode| b.kept(),
                ).push(kept_of(child@, name@, omit_if_empty)));
                assert(all.take(list@.len() as int).map_values(
                    |c: super::Node| kept_of(c@, name@, omit_if_empty),
                ) =~= all.take(done.len() as int).map_values(
                    |c: super::Node| kept_of(c@, name@, omit_if_empty),
                ).push(kept_of(child@, name@, omit_if_empty)));
            }
        }
        proof {
            assert(all.take(list@.len() as int) =~= all);
        }
        BuiltNodeList(list)
    }
}

} // verus!
