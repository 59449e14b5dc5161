//! Conversions between the values of entries and native types.
use crate::error::{mismatch, ValueTypeMismatch};
use crate::tree::{Value, ValueView};
use vstd::prelude::*;

verus! {

/// A type that can be read from the value of an entry.
pub trait FromKdlValue<'doc>: Sized {
    type Error;

    /// Whether `result` may be what `value` decodes to. A type that says
    /// nothing here promises nothing of its decoding.
    open spec fn decoded(value: ValueView, result: Result<Self, Self::Error>) -> bool {
        true
    }

    fn from_kdl(value: &'doc Value) -> (result: Result<Self, Self::Error>)
        ensures
            Self::decoded(value@, result),
    ;
}

/// A type that can be written as the value of an entry.
pub trait AsKdlValue {
    /// Whether `value` may be what `self` is written as. A type that says
    /// nothing here promises nothing of its encoding.
    open spec fn encodes(&self, value: ValueView) -> bool {
        true
    }

    fn as_kdl(&self) -> (value: Value)
        ensures
            self.encodes(value@),
    ;
}

impl<V: AsKdlValue> AsKdlValue for &V {
    open spec fn encodes(&self, value: ValueView) -> bool {
        (**self).encodes(value)
    }

    fn as_kdl(&self) -> (value: Value) {
        V::as_kdl(self)
    }
}

impl<'doc> FromKdlValue<'doc> for &'doc Value {
    type Error = core::convert::Infallible;

    open spec fn decoded(value: ValueView, result: Result<Self, Self::Error>) -> bool {
        result is Ok && result->Ok_0@ == value
    }

    fn from_kdl(value: &'doc Value) -> (result: Result<Self, Self::Error>) {
        Ok(value)
    }
}

impl<'doc> FromKdlValue<'doc> for &'doc str {
    type Error = ValueTypeMismatch;

    open spec fn decoded(value: ValueView, result: Result<Self, Self::Error>) -> bool {
        match value {
            ValueView::String(s) => result is Ok && result->Ok_0@ == s,
            _ => result is Err && result->Err_0@ == mismatch(value, "String"@),
        }
    }

    fn from_kdl(value: &'doc Value) -> (result: Result<Self, Self::Error>) {
        match value {
            Value::String(s) => Ok(s.as_str()),
            _ => Err(ValueTypeMismatch::new(value, "String")),
        }
    }
}

impl<'doc> FromKdlValue<'doc> for String {
    type Error = ValueTypeMismatch;

    open spec fn decoded(value: ValueView, result: Result<Self, Self::Error>) -> bool {
        match value {
            ValueView::String(s) => result is Ok && result->Ok_0@ == s,
            _ => result is Err && result->Err_0@ == mismatch(value, "String"@),
        }
    }

    fn from_kdl(value: &'doc Value) -> (result: Result<Self, Self::Error>) {
        match <&str>::from_kdl(value) {
            Ok(s) => Ok(s.to_owned()),
            Err(e) => Err(e),
        }
    }
}

impl AsKdlValue for str {
    open spec fn encodes(&self, value: ValueView) -> bool {
        value == ValueView::String(self@)
    }

    fn as_kdl(&self) -> (value: Value) {
        Value::String(self.to_owned())
    }
}

impl<'a> AsKdlValue for &'a str {
    open spec fn encodes(&self, value: ValueView) -> bool {
        value == ValueView::String(self@)
    }

    fn as_kdl(&self) -> (value: Value) {
        Value::String((*self).to_owned())
    }
}

impl AsKdlValue for String {
    open spec fn encodes(&self, value: ValueView) -> bool {
        value == ValueView::String(self@)
    }

    fn as_kdl(&self) -> (value: Value) {
        self.as_str().as_kdl()
    }
}

impl<'doc> FromKdlValue<'doc> for i128 {
    type Error = ValueTypeMismatch;

    open spec fn decoded(value: ValueView, result: Result<Self, Self::Error>) -> bool {
        match value {
            ValueView::Integer(i) => result == Ok::<i128, ValueTypeMismatch>(i),
            _ => result is Err && result->Err_0@ == mismatch(value, "Integer"@),
        }
    }

    fn from_kdl(value: &'doc Value) -> (result: Result<Self, Self::Error>) {
        match value {
            Value::Integer(i) => Ok(*i),
            _ => Err(ValueTypeMismatch::new(value, "Integer")),
        }
    }
}

impl AsKdlValue for i128 {
    open spec fn encodes(&self, value: ValueView) -> bool {
        value == ValueView::Integer(*self)
    }

    fn as_kdl(&self) -> (value: Value) {
        Value::Integer(*self)
    }
}

impl<'doc> FromKdlValue<'doc> for u8 {
    type Error = ValueTypeMismatch;

    open spec fn decoded(value: ValueView, result: Result<Self, Self::Error>) -> bool {
        match value {
            ValueView::Integer(i) => result == Ok::<u8, ValueTypeMismatch>(i as u8),
            _ => result is Err && result->Err_0@ == mismatch(value, "Integer"@),
        }
    }

    fn from_kdl(value: &'doc Value) -> (result: Result<Self, Self::Error>) {
        match i128::from_kdl(value) {
            Ok(i) => Ok(#[verifier::truncate] (i as u8)),
            Err(e) => Err(e),
        }
    }
}

impl AsKdlValue for u8 {
    open spec fn encodes(&self, value: ValueView) -> bool {
        value == ValueView::Integer(*self as i128)
    }

    fn as_kdl(&self) -> (value: Value) {
        (#[verifier::truncate] (*self as i128)).as_kdl()
    }
}

impl<'doc> FromKdlValue<'doc> for i8 {
    type Error = ValueTypeMismatch;

    open spec fn decoded(value: ValueView, result: Result<Self, Self::Error>) -> bool {
        match value {
            ValueView::Integer(i) => result == Ok::<i8, ValueTypeMismatch>(i as i8),
            _ => result is Err && result->Err_0@ == mismatch(value, "Integer"@),
        }
    }

    fn from_kdl(value: &'doc Value) -> (result: Result<Self, Self::Error>) {
        match i128::from_kdl(value) {
            Ok(i) => Ok(#[verifier::truncate] (i as i8)),
            Err(e) => Err(e),
        }
    }
}

impl AsKdlValue for i8 {
    open spec fn encodes(&self, value: ValueView) -> bool {
        value == ValueView::Integer(*self as i128)
    }

    fn as_kdl(&self) -> (value: Value) {
        (#[verifier::truncate] (*self as i128)).as_kdl()
    }
}

impl<'doc> FromKdlValue<'doc> for u16 {
    type Error = ValueTypeMismatch;

    open spec fn decoded(value: ValueView, result: Result<Self, Self::Error>) -> bool {
        match value {
            ValueView::Integer(i) => result == Ok::<u16, ValueTypeMismatch>(i as u16),
            _ => result is Err && result->Err_0@ == mismatch(value, "Integer"@),
        }
    }

    fn from_kdl(value: &'doc Value) -> (result: Result<Self, Self::Error>) {
        match i128::from_kdl(value) {
            Ok(i) => Ok(#[verifier::truncate] (i as u16)),
            Err(e) => Err(e),
        }
    }
}

impl AsKdlValue for u16 {
    open spec fn encodes(&self, value: ValueView) -> bool {
        value == ValueView::Integer(*self as i128)
    }

    fn as_kdl(&self) -> (value: Value) {
        (#[verifier::truncate] (*self as i128)).as_kdl()
    }
}

impl<'doc> FromKdlValue<'doc> for i16 {
    type Error = ValueTypeMismatch;

    open spec fn decoded(value: ValueView, result: Result<Self, Self::Error>) -> bool {
        match value {
            ValueView::Integer(i) => result == Ok::<i16, ValueTypeMismatch>(i as i16),
            _ => result is Err && result->Err_0@ == mismatch(value, "Integer"@),
        }
    }

    fn from_kdl(value: &'doc Value) -> (result: Result<Self, Self::Error>) {
        match i128::from_kdl(value) {
            Ok(i) => Ok(#[verifier::truncate] (i as i16)),
            Err(e) => Err(e),
        }
    }
}

impl AsKdlValue for i16 {
    open spec fn encodes(&self, value: ValueView) -> bool {
        value == ValueView::Integer(*self as i128)
    }

    fn as_kdl(&self) -> (value: Value) {
        (#[verifier::truncate] (*self as i128)).as_kdl()
    }
}

impl<'doc> FromKdlValue<'doc> for u32 {
    type Error = ValueTypeMismatch;

    open spec fn decoded(value: ValueView, result: Result<Self, Self::Error>) -> bool {
        match value {
            ValueView::Integer(i) => result == Ok::<u32, ValueTypeMismatch>(i as u32),
            _ => result is Err && result->Err_0@ == mismatch(value, "Integer"@),
        }
    }

    fn from_kdl(value: &'doc Value) -> (result: Result<Self, Self::Error>) {
        match i128::from_kdl(value) {
            Ok(i) => Ok(#[verifier::truncate] (i as u32)),
            Err(e) => Err(e),
        }
    }
}

impl AsKdlValue for u32 {
    open spec fn encodes(&self, value: ValueView) -> bool {
        value == ValueView::Integer(*self as i128)
    }

    fn as_kdl(&self) -> (value: Value) {
        (#[verifier::truncate] (*self as i128)).as_kdl()
    }
}

impl<'doc> FromKdlValue<'doc> for i32 {
    type Error = ValueTypeMismatch;

    open spec fn decoded(value: ValueView, result: Result<Self, Self::Error>) -> bool {
        match value {
            ValueView::Integer(i) => result == Ok::<i32, ValueTypeMismatch>(i as i32),
            _ => result is Err && result->Err_0@ == mismatch(value, "Integer"@),
        }
    }

    fn from_kdl(value: &'doc Value) -> (result: Result<Self, Self::Error>) {
        match i128::from_kdl(value) {
            Ok(i) => Ok(#[verifier::truncate] (i as i32)),
            Err(e) => Err(e),
        }
    }
}

impl AsKdlValue for i32 {
    open spec fn encodes(&self, value: ValueView) -> bool {
        value == ValueView::Integer(*self as i128)
    }

    fn as_kdl(&self) -> (value: Value) {
        (#[verifier::truncate] (*self as i128)).as_kdl()
    }
}

impl<'doc> FromKdlValue<'doc> for u64 {
    type Error = ValueTypeMismatch;

    open spec fn decoded(value: ValueView, result: Result<Self, Self::Error>) -> bool {
        match value {
            ValueView::Integer(i) => result == Ok::<u64, ValueTypeMismatch>(i as u64),
            _ => result is Err && result->Err_0@ == mismatch(value, "Integer"@),
        }
    }

    fn from_kdl(value: &'doc Value) -> (result: Result<Self, Self::Error>) {
        match i128::from_kdl(value) {
            Ok(i) => Ok(#[verifier::truncate] (i as u64)),
            Err(e) => Err(e),
        }
    }
}

impl AsKdlValue for u64 {
    open spec fn encodes(&self, value: ValueView) -> bool {
        value == ValueView::Integer(*self as i128)
    }

    fn as_kdl(&self) -> (value: Value) {
        (#[verifier::truncate] (*self as i128)).as_kdl()
    }
}

impl<'doc> FromKdlValue<'doc> for i64 {
    type Error = ValueTypeMismatch;

    open spec fn decoded(value: ValueView, result: Result<Self, Self::Error>) -> bool {
        match value {
            ValueView::Integer(i) => result == Ok::<i64, ValueTypeMismatch>(i as i64),
            _ => result is Err && result->Err_0@ == mismatch(value, "Integer"@),
        }
    }

    fn from_kdl(value: &'doc Value) -> (result: Result<Self, Self::Error>) {
        match i128::from_kdl(value) {
            Ok(i) => Ok(#[verifier::truncate] (i as i64)),
            Err(e) => Err(e),
        }
    }
}

impl AsKdlValue for i64 {
    open spec fn encodes(&self, value: ValueView) -> bool {
        value == ValueView::Integer(*self as i128)
    }

    fn as_kdl(&self) -> (value: Value) {
        (#[verifier::truncate] (*self as i128)).as_kdl()
    }
}

impl<'doc> FromKdlValue<'doc> for u128 {
    type Error = ValueTypeMismatch;

    open spec fn decoded(value: ValueView, result: Result<Self, Self::Error>) -> bool {
        match value {
            ValueView::Integer(i) => result == Ok::<u128, ValueTypeMismatch>(i as u128),
            _ => result is Err && result->Err_0@ == mismatch(value, "Integer"@),
        }
    }

    fn from_kdl(value: &'doc Value) -> (result: Result<Self, Self::Error>) {
        match i128::from_kdl(value) {
            Ok(i) => Ok(#[verifier::truncate] (i as u128)),
            Err(e) => Err(e),
        }
    }
}

impl AsKdlValue for u128 {
    open spec fn encodes(&self, value: ValueView) -> bool {
        value == ValueView::Integer(*self as i128)
    }

    fn as_kdl(&self) -> (value: Value) {
        (#[verifier::truncate] (*self as i128)).as_kdl()
    }
}

impl<'doc> FromKdlValue<'doc> for usize {
    type Error = ValueTypeMismatch;

    open spec fn decoded(value: ValueView, result: Result<Self, Self::Error>) -> bool {
        match value {
            ValueView::Integer(i) => result == Ok::<usize, ValueTypeMismatch>(i as usize),
            _ => result is Err && result->Err_0@ == mismatch(value, "Integer"@),
        }
    }

    fn from_kdl(value: &'doc Value) -> (result: Result<Self, Self::Error>) {
        match i128::from_kdl(value) {
            Ok(i) => Ok(#[verifier::truncate] (i as usize)),
            Err(e) => Err(e),
        }
    }
}

impl AsKdlValue for usize {
    open spec fn encodes(&self, value: ValueView) -> bool {
        value == ValueView::Integer(*self as i128)
    }

    fn as_kdl(&self) -> (value: Value) {
        (#[verifier::truncate] (*self as i128)).as_kdl()
    }
}

impl<'doc> FromKdlValue<'doc> for isize {
    type Error = ValueTypeMismatch;

    open spec fn decoded(value: ValueView, result: Result<Self, Self::Error>) -> bool {
        match value {
            ValueView::Integer(i) => result == Ok::<isize, ValueTypeMismatch>(i as isize),
            _ => result is Err && result->Err_0@ == mismatch(value, "Integer"@),
        }
    }

    fn from_kdl(value: &'doc Value) -> (result: Result<Self, Self::Error>) {
        match i128::from_kdl(value) {
            Ok(i) => Ok(#[verifier::truncate] (i as isize)),
            Err(e) => Err(e),
        }
    }
}

impl AsKdlValue for isize {
    open spec fn encodes(&self, value: ValueView) -> bool {
        value == ValueView::Integer(*self as i128)
    }

    fn as_kdl(&self) -> (value: Value) {
        (#[verifier::truncate] (*self as i128)).as_kdl()
    }
}

impl<'doc> FromKdlValue<'doc> for bool {
    type Error = ValueTypeMismatch;

    open spec fn decoded(value: ValueView, result: Result<Self, Self::Error>) -> bool {
        match value {
            ValueView::Bool(b) => result == Ok::<bool, ValueTypeMismatch>(b),
            _ => result is Err && result->Err_0@ == mismatch(value, "Bool"@),
        }
    }

    fn from_kdl(value: &'doc Value) -> (result: Result<Self, Self::Error>) {
        match value {
            Value::Bool(b) => Ok(*b),
            _ => Err(ValueTypeMismatch::new(value, "Bool")),
        }
    }
}

impl AsKdlValue for bool {
    open spec fn encodes(&self, value: ValueView) -> bool {
        value == ValueView::Bool(*self)
    }

    fn as_kdl(&self) -> (value: Value) {
        Value::Bool(*self)
    }
}

/// A floating point number, held by its IEEE 754 binary64 bit pattern.
#[derive(Debug, Clone, Copy, PartialEq, Eq)]
pub struct FloatBits(pub u64);

impl<'doc> FromKdlValue<'doc> for FloatBits {
    type Error = ValueTypeMismatch;

    open spec fn decoded(value: ValueView, result: Result<Self, Self::Error>) -> bool {
        match value {
            ValueView::Float(bits) => result == Ok::<FloatBits, ValueTypeMismatch>(FloatBits(bits)),
            _ => result is Err && result->Err_0@ == mismatch(value, "Float"@),
        }
    }

    fn from_kdl(value: &'doc Value) -> (result: Result<Self, Self::Error>) {
        match value {
            Value::Float(bits) => Ok(FloatBits(*bits)),
            _ => Err(ValueTypeMismatch::new(value, "Float")),
        }
    }
}

impl AsKdlValue for FloatBits {
    open spec fn encodes(&self, value: ValueView) -> bool {
        value == ValueView::Float(self.0)
    }

    fn as_kdl(&self) -> (value: Value) {
        Value::Float(self.0)
    }
}

/// The value that a type is written as when it goes by its text: the
/// string, or null where the text is empty.
pub open spec fn text_value(text: Seq<char>) -> ValueView {
    if text.len() == 0 {
        ValueView::Null
    } else {
        ValueView::String(text)
    }
}

/// Writes a type that goes by its text; empty text is written as null.
pub fn text_as_kdl(text: String) -> (value: Value)
    ensures
        value@ == text_value(text@),
{
    if text.as_str().is_empty() {
        Value::Null
    } else {
        Value::String(text)
    }
}

/// Reads the text of a type that goes by its text, for its parser.
pub fn text_from_kdl<'doc>(value: &'doc Value) -> (result: Result<&'doc str, ValueTypeMismatch>)
    ensures
        <&'doc str as FromKdlValue<'doc>>::decoded(value@, result),
{
    <&str>::from_kdl(value)
}

impl<V: AsKdlValue> AsKdlValue for Option<V> {
    open spec fn encodes(&self, value: ValueView) -> bool {
        match self {
            None => value is Null,
            Some(inner) => inner.encodes(value),
        }
    }

    fn as_kdl(&self) -> (value: Value) {
        match self {
            None => Value::Null,
            Some(value) => value.as_kdl(),
        }
    }
}

} // verus!
