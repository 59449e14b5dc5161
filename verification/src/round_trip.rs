//! Writing a native value and reading it back gives the value again.
use crate::builder::{argument_of, built, lemma_lone_argument_reads_back, lone_entry};
use crate::convert::{AsKdlValue, FloatBits, FromKdlValue};
use crate::error::{RequiredValue, ValueTypeMismatch};
use crate::reader::{peeked, required, NodeState};
use crate::tree::ValueView;
use vstd::prelude::*;

verus! {

/// A node built of one native value and then read from its start decodes
/// what the value was written as, unless that is null: a reader never finds
/// the node short of the argument, and what it hands out is what the type
/// decodes the written value to. For the types below, that is the value
/// itself.
pub proof fn lemma_built_value_is_decoded<'doc, T: AsKdlValue + FromKdlValue<'doc>, Context>(
    x: T,
    value: ValueView,
    name: Seq<char>,
    ctx: Context,
    r: Result<T, RequiredValue<T::Error>>,
)
    requires
        x.encodes(value),
        !(value is Null),
        required(
            peeked(
                NodeState {
                    node: built(lone_entry(argument_of(value), false), name),
                    ctx,
                    is_child: false,
                    cursor: 0,
                },
            ),
            r,
        ),
    ensures
        match r {
            Ok(y) => T::decoded(value, Ok(y)),
            Err(RequiredValue::Parse(e)) => T::decoded(value, Err(e)),
            Err(RequiredValue::Missing(_)) => false,
        },
{
    lemma_lone_argument_reads_back(value, false, name);
}

/// Whatever `x` is written as, it is read back as `x`.
pub proof fn lemma_round_trip_u8(x: u8, value: ValueView, back: Result<u8, ValueTypeMismatch>)
    requires
        x.encodes(value),
        <u8 as FromKdlValue>::decoded(value, back),
    ensures
        back == Ok::<u8, ValueTypeMismatch>(x),
{
}

/// Whatever `x` is written as, it is read back as `x`.
pub proof fn lemma_round_trip_i8(x: i8, value: ValueView, back: Result<i8, ValueTypeMismatch>)
    requires
        x.encodes(value),
        <i8 as FromKdlValue>::decoded(value, back),
    ensures
        back == Ok::<i8, ValueTypeMismatch>(x),
{
}

/// Whatever `x` is written as, it is read back as `x`.
pub proof fn lemma_round_trip_u16(x: u16, value: ValueView, back: Result<u16, ValueTypeMismatch>)
    requires
        x.encodes(value),
        <u16 as FromKdlValue>::decoded(value, back),
    ensures
        back == Ok::<u16, ValueTypeMismatch>(x),
{
}

/// Whatever `x` is written as, it is read back as `x`.
pub proof fn lemma_round_trip_i16(x: i16, value: ValueView, back: Result<i16, ValueTypeMismatch>)
    requires
        x.encodes(value),
        <i16 as FromKdlValue>::decoded(value, back),
    ensures
        back == Ok::<i16, ValueTypeMismatch>(x),
{
}

/// Whatever `x` is written as, it is read back as `x`.
pub proof fn lemma_round_trip_u32(x: u32, value: ValueView, back: Result<u32, ValueTypeMismatch>)
    requires
        x.encodes(value),
        <u32 as FromKdlValue>::decoded(value, back),
    ensures
        back == Ok::<u32, ValueTypeMismatch>(x),
{
}

/// Whatever `x` is written as, it is read back as `x`.
pub proof fn lemma_round_trip_i32(x: i32, value: ValueView, back: Result<i32, ValueTypeMismatch>)
    requires
        x.encodes(value),
        <i32 as FromKdlValue>::decoded(value, back),
    ensures
        back == Ok::<i32, ValueTypeMismatch>(x),
{
}

/// Whatever `x` is written as, it is read back as `x`.
pub proof fn lemma_round_trip_u64(x: u64, value: ValueView, back: Result<u64, ValueTypeMismatch>)
    requires
        x.encodes(value),
        <u64 as FromKdlValue>::decoded(value, back),
    ensures
        back == Ok::<u64, ValueTypeMismatch>(x),
{
}

/// Whatever `x` is written as, it is read back as `x`.
pub proof fn lemma_round_trip_i64(x: i64, value: ValueView, back: Result<i64, ValueTypeMismatch>)
    requires
        x.encodes(value),
        <i64 as FromKdlValue>::decoded(value, back),
    ensures
        back == Ok::<i64, ValueTypeMismatch>(x),
{
}

/// Whatever `x` is written as, it is read back as `x`.
pub proof fn lemma_round_trip_u128(x: u128, value: ValueView, back: Result<u128, ValueTypeMismatch>)
    requires
        x.encodes(value),
        <u128 as FromKdlValue>::decoded(value, back),
    ensures
        back == Ok::<u128, ValueTypeMismatch>(x),
{
    assert((x as i128) as u128 == x) by (bit_vector);
}

/// Whatever `x` is written as, it is read back as `x`.
pub proof fn lemma_round_trip_usize(x: usize, value: ValueView, back: Result<usize, ValueTypeMismatch>)
    requires
        x.encodes(value),
        <usize as FromKdlValue>::decoded(value, back),
    ensures
        back == Ok::<usize, ValueTypeMismatch>(x),
{
}

/// Whatever `x` is written as, it is read back as `x`.
pub proof fn lemma_round_trip_isize(x: isize, value: ValueView, back: Result<isize, ValueTypeMismatch>)
    requires
        x.encodes(value),
        <isize as FromKdlValue>::decoded(value, back),
    ensures
        back == Ok::<isize, ValueTypeMismatch>(x),
{
}

/// Whatever `x` is written as, it is read back as `x`.
pub proof fn lemma_round_trip_i128(x: i128, value: ValueView, back: Result<i128, ValueTypeMismatch>)
    requires
        x.encodes(value),
        <i128 as FromKdlValue>::decoded(value, back),
    ensures
        back == Ok::<i128, ValueTypeMismatch>(x),
{
}

/// Whatever `x` is written as, it is read back as `x`.
pub proof fn lemma_round_trip_bool(x: bool, value: ValueView, back: Result<bool, ValueTypeMismatch>)
    requires
        x.encodes(value),
        <bool as FromKdlValue>::decoded(value, back),
    ensures
        back == Ok::<bool, ValueTypeMismatch>(x),
{
}

/// Whatever `x` is written as, it is read back as `x`.
pub proof fn lemma_round_trip_float_bits(
    x: FloatBits,
    value: ValueView,
    back: Result<FloatBits, ValueTypeMismatch>,
)
    requires
        x.encodes(value),
        <FloatBits as FromKdlValue>::decoded(value, back),
    ensures
        back == Ok::<FloatBits, ValueTypeMismatch>(x),
{
}

/// Whatever a string is written as, it is read back as a string of the
/// same text; the empty string too.
pub proof fn lemma_round_trip_string(
    x: String,
    value: ValueView,
    back: Result<String, ValueTypeMismatch>,
)
    requires
        x.encodes(value),
        <String as FromKdlValue>::decoded(value, back),
    ensures
        back is Ok,
        back->Ok_0@ == x@,
{
}

/// A value that is there is written as itself and never as null, so it is
/// read back; a value that is not there is written as null.
pub proof fn lemma_round_trip_option<V: AsKdlValue>(x: Option<V>, value: ValueView)
    requires
        x.encodes(value),
    ensures
        x is None ==> value is Null,
        x matches Some(inner) ==> inner.encodes(value),
{
}

/// A type that goes by its text is read back from what it is written as,
/// unless its text is empty: then it is written as null, which is no
/// string.
pub proof fn lemma_round_trip_text(text: Seq<char>, back: Result<&str, ValueTypeMismatch>)
    requires
        <&str as FromKdlValue>::decoded(crate::convert::text_value(text), back),
    ensures
        text.len() > 0 ==> back is Ok && back->Ok_0@ == text,
        text.len() == 0 ==> back is Err,
{
}

} // verus!
