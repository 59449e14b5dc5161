//! Entries on their way into a builder, and the wrappers that say what an
//! entry is made of.
use crate::convert::AsKdlValue;
use crate::tree;
use crate::tree::EntryView;
use vstd::prelude::*;

verus! {

/// An entry under construction.
#[derive(Debug)]
pub struct Entry {
    pub entry: tree::Entry,
}

impl Default for Entry {
    fn default() -> (e: Entry)
        ensures
            e.entry@ == (EntryView { name: None, ty: None, value: tree::ValueView::Null }),
    {
        Entry { entry: tree::Entry::new(tree::Value::Null) }
    }
}

impl Entry {
    /// The entry as the property `name`.
    pub fn name(self, name: &str) -> (r: Self)
        ensures
            r.entry@ == (EntryView { name: Some(name@), ..self.entry@ }),
    {
        let mut r = self;
        r.entry.set_name(Some(name));
        r
    }

    /// The entry with the type tag `ty`.
    pub fn ty(self, ty: &str) -> (r: Self)
        ensures
            r.entry@ == (EntryView { ty: Some(ty@), ..self.entry@ }),
    {
        let mut r = self;
        r.entry.set_ty(ty);
        r
    }

    /// The entry with `value` written as its value.
    pub fn value<V: AsKdlValue>(self, value: V) -> (r: Self)
        ensures
            value.encodes(r.entry@.value),
            r.entry@ == (EntryView { value: r.entry@.value, ..self.entry@ }),
    {
        let mut r = self;
        r.entry.set_value(value.as_kdl());
        r
    }
}

/// A wrapper that still knows the native value inside it.
pub trait InnerValue {
    type Inner;

    /// The native value inside.
    spec fn content(&self) -> Self::Inner;

    fn inner(&self) -> (r: &Self::Inner)
        ensures
            *r == self.content(),
    ;
}

/// What can be made into an entry.
pub trait IntoEntry: Sized {
    /// Whether `entry` may be what `self` is made into.
    open spec fn makes(self, entry: EntryView) -> bool {
        true
    }

    fn into_entry(self) -> (e: Entry)
        ensures
            self.makes(e.entry@),
    ;
}

impl IntoEntry for Entry {
    open spec fn makes(self, entry: EntryView) -> bool {
        entry == self.entry@
    }

    fn into_entry(self) -> (e: Entry) {
        self
    }
}

/// A native value, to be written as the value of an argument.
pub struct Value<V>(pub V);

impl<'a, V> InnerValue for Value<&'a V> {
    type Inner = V;

    open spec fn content(&self) -> V {
        *self.0
    }

    fn inner(&self) -> (r: &V) {
        self.0
    }
}

impl<V: AsKdlValue> IntoEntry for Value<V> {
    open spec fn makes(self, entry: EntryView) -> bool {
        entry.name is None && entry.ty is None && self.0.encodes(entry.value)
    }

    fn into_entry(self) -> (e: Entry) {
        Entry { entry: tree::Entry::new(self.0.as_kdl()) }
    }
}

/// What the second field makes, with the first field as the type tag.
pub struct Typed<'a, I>(pub &'a str, pub I);

impl<'a, I: InnerValue> InnerValue for Typed<'a, I> {
    type Inner = I::Inner;

    open spec fn content(&self) -> I::Inner {
        self.1.content()
    }

    fn inner(&self) -> (r: &I::Inner) {
        self.1.inner()
    }
}

impl<'a, V: AsKdlValue> IntoEntry for Typed<'a, Value<V>> {
    open spec fn makes(self, entry: EntryView) -> bool {
        entry.name is None && entry.ty == Some(self.0@) && self.1.0.encodes(entry.value)
    }

    fn into_entry(self) -> (e: Entry) {
        self.1.into_entry().ty(self.0)
    }
}

/// What the second field makes, as the property named by the first field.
pub struct Property<'a, V>(pub &'a str, pub V);

impl<'a, I: InnerValue> InnerValue for Property<'a, I> {
    type Inner = I::Inner;

    open spec fn content(&self) -> I::Inner {
        self.1.content()
    }

    fn inner(&self) -> (r: &I::Inner) {
        self.1.inner()
    }
}

impl<'a, V: IntoEntry> IntoEntry for Property<'a, V> {
    open spec fn makes(self, entry: EntryView) -> bool {
        exists|inner: EntryView| #[trigger]
            self.1.makes(inner) && entry == (EntryView { name: Some(self.0@), ..inner })
    }

    fn into_entry(self) -> (e: Entry) {
        self.1.into_entry().name(self.0)
    }
}

} // verus!
