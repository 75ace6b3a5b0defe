//! The sizes that the fields of the schema's messages take on the wire, by the
//! size functions of the `protobuf` crate.

use protobuf::rt;
use protobuf::wire_format::WireType;
use vstd::prelude::*;
use vstd::string::StringSliceAdditionalSpecFns;

verus! {

/// The longest text or byte string whose field can be sized: with its tag and
/// its length in front, it still fits the 32 bits of a size.
pub const MAX_PAYLOAD: usize = 0xffff_fff5;

/// The largest field number.
pub const FIELD_NUMBER_MAX: u32 = 0x1fff_ffff;

/// The number of bytes of the variable-length encoding of `v`: seven bits of
/// the number to a byte.
pub open spec fn varint_len(v: int) -> int {
    if v < 0x80 {
        1
    } else if v < 0x4000 {
        2
    } else if v < 0x20_0000 {
        3
    } else if v < 0x1000_0000 {
        4
    } else if v < 0x8_0000_0000 {
        5
    } else if v < 0x400_0000_0000 {
        6
    } else if v < 0x2_0000_0000_0000 {
        7
    } else if v < 0x100_0000_0000_0000 {
        8
    } else if v < 0x8000_0000_0000_0000 {
        9
    } else {
        10
    }
}

/// The number of bytes of the tag of a field: the field number with three
/// bits for the wire type, in the variable-length encoding.
pub open spec fn tag_len(field_number: int) -> int {
    varint_len(field_number * 8 + 1)
}

/// The number of bytes of a field that holds `len` bytes behind its tag and
/// their count.
pub open spec fn delimited_len(field_number: int, len: int) -> int {
    tag_len(field_number) + varint_len(len) + len
}

/// The number of bytes of a field that holds the number `v` behind its tag.
pub open spec fn varint_field_len(field_number: int, v: int) -> int {
    tag_len(field_number) + varint_len(v)
}

/// The number of bytes of a field that holds a flag behind its tag.
pub open spec fn bool_field_len(field_number: int) -> int {
    tag_len(field_number) + 1
}

/// The unsigned number with the bits of `v`.
pub open spec fn unsigned_bits(v: i64) -> int {
    if v >= 0 {
        v as int
    } else {
        v + 0x1_0000_0000_0000_0000
    }
}

/// The number of bytes of a text in UTF-8.
pub open spec fn text_len(s: Seq<char>) -> int {
    vstd::utf8::encode_utf8(s).len() as int
}

/// `protobuf::rt::compute_raw_varint32_size`: the number of bytes of the
/// variable-length encoding of `value`.
#[verifier::external_body]
fn varint32_size(value: u32) -> (r: u32)
    ensures
        r == varint_len(value as int),
{
    rt::compute_raw_varint32_size(value)
}

/// `protobuf::rt::tag_size`: the number of bytes of the tag of a field. The
/// field number must be one that a tag can hold.
#[verifier::external_body]
fn tag_size(field_number: u32) -> (r: u32)
    requires
        1 <= field_number <= FIELD_NUMBER_MAX,
    ensures
        r == tag_len(field_number as int),
{
    rt::tag_size(field_number)
}

/// `protobuf::rt::value_size` for a number in the variable-length encoding:
/// the bytes of the tag and of the number.
#[verifier::external_body]
fn value_size(field_number: u32, value: u64) -> (r: u32)
    requires
        1 <= field_number <= FIELD_NUMBER_MAX,
    ensures
        r == varint_field_len(field_number as int, value as int),
{
    rt::value_size(field_number, value, WireType::WireTypeVarint)
}

/// `protobuf::rt::string_size`: the bytes of the tag, of the text's length and
/// of the text. The sum must fit 32 bits.
#[verifier::external_body]
fn string_size(field_number: u32, s: &str) -> (r: u32)
    requires
        1 <= field_number <= FIELD_NUMBER_MAX,
        s.spec_bytes().len() <= MAX_PAYLOAD,
    ensures
        r == delimited_len(field_number as int, s.spec_bytes().len() as int),
{
    rt::string_size(field_number, s)
}

/// `protobuf::rt::bytes_size`: the bytes of the tag, of the byte string's
/// length and of the byte string. The sum must fit 32 bits.
#[verifier::external_body]
fn bytes_size(field_number: u32, bytes: &[u8]) -> (r: u32)
    requires
        1 <= field_number <= FIELD_NUMBER_MAX,
        bytes@.len() <= MAX_PAYLOAD,
    ensures
        r == delimited_len(field_number as int, bytes@.len() as int),
{
    rt::bytes_size(field_number, bytes)
}

/// The size of a field that holds a text, if the text is short enough to be
/// sized.
pub fn text_field_size(field_number: u32, s: &str) -> (r: Option<u32>)
    requires
        1 <= field_number <= FIELD_NUMBER_MAX,
    ensures
        r == if text_len(s@) <= MAX_PAYLOAD {
            Some(delimited_len(field_number as int, text_len(s@)) as u32)
        } else {
            None
        },
{
    if s.as_bytes().len() > MAX_PAYLOAD {
        None
    } else {
        Some(string_size(field_number, s))
    }
}

/// The size of a field that holds a byte string, if the byte string is short
/// enough to be sized.
pub fn bytes_field_size(field_number: u32, bytes: &[u8]) -> (r: Option<u32>)
    requires
        1 <= field_number <= FIELD_NUMBER_MAX,
    ensures
        r == if bytes@.len() <= MAX_PAYLOAD {
            Some(delimited_len(field_number as int, bytes@.len() as int) as u32)
        } else {
            None
        },
{
    if bytes.len() > MAX_PAYLOAD {
        None
    } else {
        Some(bytes_size(field_number, bytes))
    }
}

/// The size of a field that holds an unsigned number.
pub fn uint64_field_size(field_number: u32, value: u64) -> (r: u32)
    requires
        1 <= field_number <= FIELD_NUMBER_MAX,
    ensures
        r == varint_field_len(field_number as int, value as int),
{
    value_size(field_number, value)
}

/// The size of a field that holds a signed number, which goes by its bits.
pub fn int64_field_size(field_number: u32, value: i64) -> (r: u32)
    requires
        1 <= field_number <= FIELD_NUMBER_MAX,
    ensures
        r == varint_field_len(field_number as int, unsigned_bits(value)),
{
    let bits = #[verifier::truncate]
    (value as u64);
    proof {
        assert(bits as int == unsigned_bits(value)) by (bit_vector)
            requires
                bits == #[verifier::truncate]
                (value as u64),
        ;
    }
    value_size(field_number, bits)
}

/// The size of a field that holds a flag.
pub fn bool_field_size(field_number: u32) -> (r: u32)
    requires
        1 <= field_number <= FIELD_NUMBER_MAX,
    ensures
        r == bool_field_len(field_number as int),
{
    tag_size(field_number) + 1
}

/// The size of a field that holds a nested message of `len` bytes, if it fits
/// 32 bits.
pub fn nested_size(field_number: u32, len: u32) -> (r: Option<u32>)
    requires
        1 <= field_number <= FIELD_NUMBER_MAX,
    ensures
        r == if delimited_len(field_number as int, len as int) <= u32::MAX {
            Some(delimited_len(field_number as int, len as int) as u32)
        } else {
            None
        },
{
    let total: u64 = tag_size(field_number) as u64 + varint32_size(len) as u64 + len as u64;
    if total > u32::MAX as u64 {
        None
    } else {
        Some(total as u32)
    }
}

/// The sum of two sizes, if it fits 32 bits.
pub fn add_size(total: u32, more: u32) -> (r: Option<u32>)
    ensures
        r == if total + more <= u32::MAX {
            Some((total + more) as u32)
        } else {
            None
        },
{
    let sum: u64 = total as u64 + more as u64;
    if sum > u32::MAX as u64 {
        None
    } else {
        Some(sum as u32)
    }
}

} // verus!
