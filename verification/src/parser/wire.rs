//! The primitives of the binary form: variable-length integers, field keys
//! and text, as the `prost` crate and the standard library write and read
//! them. The contracts in this file are believed, not proved: each says what
//! the function it names does.

use prost::encoding::{DecodeContext, WireType};
use prost::DecodeError;
use vstd::prelude::*;
use vstd::utf8::{decode_utf8, valid_utf8};

verus! {

/// The error with which `prost` refuses bytes.
#[verifier::external_type_specification]
#[verifier::external_body]
pub struct ExDecodeError(DecodeError);

/// The kind of encoding that a field key announces for the field's value.
#[derive(Clone, Copy, Debug, PartialEq, Eq, Structural)]
pub enum WireKind {
    Varint,
    SixtyFourBit,
    LengthDelimited,
    StartGroup,
    EndGroup,
    ThirtyTwoBit,
}

/// The kind that a number of a field key stands for.
pub open spec fn wire_kind(number: nat) -> WireKind {
    if number == 0 {
        WireKind::Varint
    } else if number == 1 {
        WireKind::SixtyFourBit
    } else if number == 2 {
        WireKind::LengthDelimited
    } else if number == 3 {
        WireKind::StartGroup
    } else if number == 4 {
        WireKind::EndGroup
    } else {
        WireKind::ThirtyTwoBit
    }
}

/// A number as a variable-length integer: seven bits to a byte, the low
/// bits first, the top bit of a byte set where more bytes follow.
pub open spec fn varint(value: nat) -> Seq<u8>
    decreases value,
{
    if value < 128 {
        seq![value as u8]
    } else {
        seq![(value % 128 + 128) as u8] + varint(value / 128)
    }
}

/// Reads a variable-length integer whose first `count` bytes were read
/// already and all had their top bit set. The result is the number that the
/// bytes from place `count` on stand for, and the place behind the last
/// byte of the integer. There is none where the bytes end before the
/// integer does, where it is longer than ten bytes, or where its tenth byte
/// is greater than one.
pub open spec fn varint_from(bytes: Seq<u8>, count: nat) -> Option<(nat, nat)>
    decreases 10 - count,
{
    if count >= 10 || count >= bytes.len() {
        None
    } else if bytes[count as int] < 128 {
        if count == 9 && bytes[count as int] >= 2 {
            None
        } else {
            Some((bytes[count as int] as nat, count + 1))
        }
    } else {
        match varint_from(bytes, count + 1) {
            None => None,
            Some((high, end)) => Some(((bytes[count as int] - 128 + 128 * high) as nat, end)),
        }
    }
}

/// The variable-length integer at the start of bytes: its value and its
/// length.
pub open spec fn parsed_varint(bytes: Seq<u8>) -> Option<(nat, nat)> {
    varint_from(bytes, 0)
}

/// The field key at the start of bytes: the field's tag, the kind of its
/// value and the length of the key. A key is a variable-length integer that
/// fits in 32 bits; its low three bits are the number of the kind, which is
/// at most five, and the rest is the tag, which is at least one.
pub open spec fn parsed_key(bytes: Seq<u8>) -> Option<(nat, WireKind, nat)> {
    match parsed_varint(bytes) {
        None => None,
        Some((key, length)) => if key > u32::MAX || key % 8 > 5 || key / 8 < 1 {
            None
        } else {
            Some((key / 8, wire_kind(key % 8), length))
        },
    }
}

/// The length of the group that starts at the start of bytes and has the
/// given tag, up to and including the key that ends it.
pub uninterp spec fn skipped_group(tag: u32, bytes: Seq<u8>) -> Option<nat>;

/// The length of the value of a field of the given kind at the start of
/// bytes, or `None` where the bytes hold no such value. `group` is the
/// length of the group that starts there, for a field that is a group.
pub open spec fn skipped(kind: WireKind, bytes: Seq<u8>, group: Option<nat>) -> Option<nat> {
    match kind {
        WireKind::Varint => match parsed_varint(bytes) {
            Some((_, length)) => Some(length),
            None => None,
        },
        WireKind::SixtyFourBit => if bytes.len() >= 8 {
            Some(8)
        } else {
            None
        },
        WireKind::ThirtyTwoBit => if bytes.len() >= 4 {
            Some(4)
        } else {
            None
        },
        WireKind::LengthDelimited => match parsed_varint(bytes) {
            Some((size, length)) => if size <= bytes.len() - length {
                Some(length + size)
            } else {
                None
            },
            None => None,
        },
        WireKind::StartGroup => group,
        WireKind::EndGroup => None,
    }
}

/// Calls `prost::encoding::encode_varint` on a vector. It appends the
/// number as a variable-length integer.
#[verifier::external_body]
pub(crate) fn encode_varint(value: u64, out: &mut Vec<u8>)
    ensures
        final(out)@ == old(out)@ + varint(value as nat),
{
    prost::encoding::encode_varint(value, out);
}

/// Calls `prost::encoding::decode_varint` on a slice. On success it returns
/// the number at the start of the slice and how many bytes follow it; it
/// fails where the slice does not start with a variable-length integer.
#[verifier::external_body]
pub(crate) fn decode_varint(bytes: &[u8]) -> (result: Result<(u64, usize), DecodeError>)
    ensures
        match result {
            Ok((value, rest)) => rest <= bytes@.len() && parsed_varint(bytes@) == Some(
                (value as nat, (bytes@.len() - rest) as nat),
            ),
            Err(_) => parsed_varint(bytes@) is None,
        },
{
    let mut buf: &[u8] = bytes;
    let value = prost::encoding::decode_varint(&mut buf)?;
    Ok((value, buf.len()))
}

/// Calls `prost::encoding::encode_key` on a vector, for a field whose value
/// is delimited by its length. It appends the key as a variable-length
/// integer: eight times the tag, plus two.
#[verifier::external_body]
pub(crate) fn encode_key(tag: u32, out: &mut Vec<u8>)
    requires
        1 <= tag <= 0x1FFF_FFFF,
    ensures
        final(out)@ == old(out)@ + varint((tag * 8 + 2) as nat),
{
    prost::encoding::encode_key(tag, WireType::LengthDelimited, out);
}

/// Calls `prost::encoding::decode_key` on a slice. On success it returns
/// the tag and the kind of the key at the start of the slice and how many
/// bytes follow the key; it fails where the slice does not start with a
/// field key.
#[verifier::external_body]
pub(crate) fn decode_key(bytes: &[u8]) -> (result: Result<(u32, WireKind, usize), DecodeError>)
    ensures
        match result {
            Ok((tag, kind, rest)) => rest <= bytes@.len() && parsed_key(bytes@) == Some(
                (tag as nat, kind, (bytes@.len() - rest) as nat),
            ),
            Err(_) => parsed_key(bytes@) is None,
        },
{
    let mut buf: &[u8] = bytes;
    let (tag, wire_type) = prost::encoding::decode_key(&mut buf)?;
    let kind = match wire_type {
        WireType::Varint => WireKind::Varint,
        WireType::SixtyFourBit => WireKind::SixtyFourBit,
        WireType::LengthDelimited => WireKind::LengthDelimited,
        WireType::StartGroup => WireKind::StartGroup,
        WireType::EndGroup => WireKind::EndGroup,
        WireType::ThirtyTwoBit => WireKind::ThirtyTwoBit,
    };
    Ok((tag, kind, buf.len()))
}

/// Calls `prost::encoding::skip_field` on a slice, with the default limit
/// on nesting. On success it returns how many bytes follow the value that
/// it skipped; it fails where the slice does not start with a value of the
/// given kind.
#[verifier::external_body]
pub(crate) fn skip_field(kind: WireKind, tag: u32, bytes: &[u8]) -> (result: Result<
    usize,
    DecodeError,
>)
    ensures
        match result {
            Ok(rest) => rest <= bytes@.len() && skipped(
                kind,
                bytes@,
                skipped_group(tag, bytes@),
            ) == Some((bytes@.len() - rest) as nat),
            Err(_) => skipped(kind, bytes@, skipped_group(tag, bytes@)) is None,
        },
{
    let mut buf: &[u8] = bytes;
    let wire_type = match kind {
        WireKind::Varint => WireType::Varint,
        WireKind::SixtyFourBit => WireType::SixtyFourBit,
        WireKind::LengthDelimited => WireType::LengthDelimited,
        WireKind::StartGroup => WireType::StartGroup,
        WireKind::EndGroup => WireType::EndGroup,
        WireKind::ThirtyTwoBit => WireType::ThirtyTwoBit,
    };
    prost::encoding::skip_field(wire_type, tag, &mut buf, DecodeContext::default())?;
    Ok(buf.len())
}

/// Calls `core::str::from_utf8`. It returns the text that the bytes encode
/// in UTF-8, or `None` where they are no valid UTF-8.
#[verifier::external_body]
pub(crate) fn str_from_utf8(bytes: &[u8]) -> (text: Option<&str>)
    ensures
        match text {
            Some(decoded) => valid_utf8(bytes@) && decoded@ == decode_utf8(bytes@),
            None => !valid_utf8(bytes@),
        },
{
    match core::str::from_utf8(bytes) {
        Ok(decoded) => Some(decoded),
        Err(_) => None,
    }
}

} // verus!
