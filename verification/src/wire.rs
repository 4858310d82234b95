//! The protobuf wire format, as far as a transaction uses it.
//!
//! The bytes are read by `prost`. What its functions return, and the texts of
//! their errors, are stated here over the wire format itself: variable length
//! integers, field keys, length delimited chunks, and groups of fields.

use vstd::prelude::*;

use prost::encoding::{DecodeContext, WireType};

use crate::text::decimal_text;

verus! {

/// How many bytes the variable length integer at the start of `bytes` takes:
/// all up to the first byte below 0x80, and that one.
pub open spec fn varint_len(bytes: Seq<u8>) -> Option<nat>
    decreases bytes.len(),
{
    if bytes.len() == 0 {
        None
    } else if bytes[0] < 0x80 {
        Some(1)
    } else {
        match varint_len(bytes.skip(1)) {
            Some(n) => Some(n + 1),
            None => None,
        }
    }
}

/// The number that those bytes hold: seven bits each, the lowest first.
pub open spec fn varint_value(bytes: Seq<u8>) -> nat
    decreases bytes.len(),
{
    if bytes.len() == 0 {
        0
    } else if bytes[0] < 0x80 {
        bytes[0] as nat
    } else {
        (bytes[0] - 0x80) as nat + 0x80 * varint_value(bytes.skip(1))
    }
}

/// The integer at the start of `bytes`, cut to 64 bits, and the bytes after
/// it. An integer of more than ten bytes is invalid.
pub open spec fn varint(bytes: Seq<u8>) -> Option<(nat, Seq<u8>)> {
    match varint_len(bytes) {
        Some(n) if n <= 10 => Some(
            (varint_value(bytes) % 0x1_0000_0000_0000_0000, bytes.skip(n as int)),
        ),
        _ => None,
    }
}

/// The field key at the start of `bytes`: the field's tag, its wire type, and
/// the bytes after the key. A key has 32 bits, its wire type is one of six, and
/// its tag is not 0.
pub open spec fn field_key(bytes: Seq<u8>) -> Option<(u32, u8, Seq<u8>)> {
    match varint(bytes) {
        Some((key, rest)) if key <= u32::MAX && key % 8 <= 5 && key / 8 >= 1 => Some(
            ((key / 8) as u32, (key % 8) as u8, rest),
        ),
        _ => None,
    }
}

/// The wire type of a variable length integer.
pub const VARINT: u8 = 0;

/// The wire type of a value of eight bytes.
pub const SIXTY_FOUR_BIT: u8 = 1;

/// The wire type of a length followed by that many bytes.
pub const LENGTH_DELIMITED: u8 = 2;

/// The wire type of a group of fields, up to its end.
pub const START_GROUP: u8 = 3;

/// The wire type of the end of a group.
pub const END_GROUP: u8 = 4;

/// The wire type of a value of four bytes.
pub const THIRTY_TWO_BIT: u8 = 5;

/// The length delimited chunk at the start of `bytes`, under a key of wire type
/// `wire`: what it holds, and the bytes after it.
pub open spec fn chunk(wire: u8, bytes: Seq<u8>) -> Option<(Seq<u8>, Seq<u8>)> {
    if wire != LENGTH_DELIMITED {
        None
    } else {
        match varint(bytes) {
            Some((n, rest)) if n <= rest.len() => Some((rest.take(n as int), rest.skip(n as int))),
            _ => None,
        }
    }
}

/// The name of a wire type.
pub open spec fn wire_name(wire: u8) -> Seq<char> {
    if wire == VARINT {
        "Varint"@
    } else if wire == SIXTY_FOUR_BIT {
        "SixtyFourBit"@
    } else if wire == LENGTH_DELIMITED {
        "LengthDelimited"@
    } else if wire == START_GROUP {
        "StartGroup"@
    } else if wire == END_GROUP {
        "EndGroup"@
    } else {
        "ThirtyTwoBit"@
    }
}

/// What is wrong with bytes that do not start with a field key.
pub open spec fn key_fault(bytes: Seq<u8>) -> Seq<char> {
    match varint(bytes) {
        None => "invalid varint"@,
        Some((key, _)) => if key > u32::MAX {
            "invalid key value: "@ + decimal_text(key)
        } else if key % 8 > 5 {
            "invalid wire type value: "@ + decimal_text(key % 8)
        } else {
            "invalid tag value: 0"@
        },
    }
}

/// What is wrong with bytes that do not start with a chunk, under a key of wire
/// type `wire`.
pub open spec fn chunk_fault(wire: u8, bytes: Seq<u8>) -> Seq<char> {
    if wire != LENGTH_DELIMITED {
        "invalid wire type: "@ + wire_name(wire) + " (expected LengthDelimited)"@
    } else if varint(bytes) is None {
        "invalid varint"@
    } else {
        "buffer underflow"@
    }
}

/// How deep groups may nest.
pub open spec fn group_limit() -> nat {
    100
}

/// What follows the first `n` bytes, if there are that many.
pub open spec fn past_fixed(bytes: Seq<u8>, n: nat) -> Result<Seq<u8>, Seq<char>> {
    if n <= bytes.len() {
        Ok(bytes.skip(n as int))
    } else {
        Err("buffer underflow"@)
    }
}

/// What follows the value of a field of wire type `wire` and tag `tag` at the
/// start of `bytes`, or what is wrong with it. Values nest at most `depth` deep.
/// The end of a group is no value.
pub open spec fn past(wire: u8, tag: u32, bytes: Seq<u8>, depth: nat) -> Result<
    Seq<u8>,
    Seq<char>,
>
    decreases depth, bytes.len(),
{
    if depth == 0 {
        Err("recursion limit reached"@)
    } else if wire == VARINT {
        match varint(bytes) {
            Some((_, rest)) => Ok(rest),
            None => Err("invalid varint"@),
        }
    } else if wire == SIXTY_FOUR_BIT {
        past_fixed(bytes, 8)
    } else if wire == LENGTH_DELIMITED {
        match chunk(wire, bytes) {
            Some((_, rest)) => Ok(rest),
            None => Err(chunk_fault(wire, bytes)),
        }
    } else if wire == START_GROUP {
        past_group(tag, bytes, (depth - 1) as nat)
    } else if wire == THIRTY_TWO_BIT {
        past_fixed(bytes, 4)
    } else {
        Err("unexpected end group tag"@)
    }
}

/// What follows a group of tag `tag` whose fields start at the start of
/// `bytes`: its fields, whose values nest at most `depth` deep, up to an end of
/// the same tag. A field is never longer than the bytes it is found in
/// (`lemma_past_shorter`), so the last case does not arise.
pub open spec fn past_group(tag: u32, bytes: Seq<u8>, depth: nat) -> Result<Seq<u8>, Seq<char>>
    decreases depth, bytes.len(),
{
    proof {
        lemma_field_key_shorter(bytes);
    }
    match field_key(bytes) {
        None => Err(key_fault(bytes)),
        Some((inner, wire, value)) => if wire == END_GROUP {
            if inner == tag {
                Ok(value)
            } else {
                Err("unexpected end group tag"@)
            }
        } else {
            match past(wire, inner, value, depth) {
                Err(fault) => Err(fault),
                Ok(rest) => if rest.len() < bytes.len() {
                    past_group(tag, rest, depth)
                } else {
                    Ok(rest)
                },
            }
        },
    }
}

/// What follows the value of a field of a message, or what is wrong with it.
pub open spec fn skipped(wire: u8, tag: u32, bytes: Seq<u8>) -> Result<Seq<u8>, Seq<char>> {
    past(wire, tag, bytes, group_limit())
}

/// The text of a decoding error.
pub open spec fn error_text(fault: Seq<char>) -> Seq<char> {
    "failed to decode Protobuf message: "@ + fault
}

/// The text of a decoding error found in the field `field` of the message
/// `message`.
pub open spec fn field_error_text(
    message: Seq<char>,
    field: Seq<char>,
    fault: Seq<char>,
) -> Seq<char> {
    error_text(message + "."@ + field + ": "@ + fault)
}

/// Reads a field key, with `prost::encoding::decode_key`.
///
/// Trusted: the call succeeds exactly on bytes that start with a valid field
/// key, gives its tag and wire type, and leaves the bytes after it. Otherwise
/// its error, in words, says what is wrong with them.
#[verifier::external_body]
pub(crate) fn decode_key<'a>(buf: &'a [u8]) -> (result: Result<(u32, u8, &'a [u8]), String>)
    ensures
        match result {
            Ok((tag, wire, rest)) => field_key(buf@) == Some((tag, wire, rest@)),
            Err(error) => field_key(buf@) is None && error@ == error_text(key_fault(buf@)),
        },
{
    let mut rest = buf;
    match prost::encoding::decode_key(&mut rest) {
        Ok((tag, wire_type)) => Ok((tag, wire_type as u8, rest)),
        Err(error) => Err(error.to_string()),
    }
}

/// Reads the value of a field of bytes, with `prost::encoding::bytes::merge`.
///
/// Trusted: the call succeeds exactly where the wire type is that of a length
/// delimited value and the bytes start with one, gives what it holds, and
/// leaves the bytes after it. Otherwise its error says what is wrong, and
/// `prost::DecodeError::push` has it say, in words, in which field.
#[verifier::external_body]
pub(crate) fn merge_bytes<'a>(
    wire: u8,
    message: &'static str,
    field: &'static str,
    buf: &'a [u8],
) -> (result: Result<(Vec<u8>, &'a [u8]), String>)
    requires
        wire <= 5,
    ensures
        match result {
            Ok((value, rest)) => chunk(wire, buf@) == Some((value@, rest@)),
            Err(error) => chunk(wire, buf@) is None && error@ == field_error_text(
                message@,
                field@,
                chunk_fault(wire, buf@),
            ),
        },
{
    let mut rest = buf;
    let mut value = Vec::new();
    let ctx = DecodeContext::default();
    let merged = match WireType::try_from(u64::from(wire)) {
        Ok(wire_type) => prost::encoding::bytes::merge(wire_type, &mut value, &mut rest, ctx),
        Err(error) => Err(error),
    };
    match merged {
        Ok(()) => Ok((value, rest)),
        Err(mut error) => {
            error.push(message, field);
            Err(error.to_string())
        },
    }
}

/// Passes over the value of a field, with `prost::encoding::skip_field`.
///
/// Trusted: the call succeeds exactly where the bytes start with a value of
/// the wire type, and leaves the bytes after it. Groups nest up to the limit of
/// a fresh `DecodeContext`. Otherwise its error, in words, says what is wrong.
#[verifier::external_body]
pub(crate) fn skip_field<'a>(wire: u8, tag: u32, buf: &'a [u8]) -> (result: Result<
    &'a [u8],
    String,
>)
    requires
        wire <= 5,
    ensures
        match result {
            Ok(rest) => skipped(wire, tag, buf@) == Ok::<_, Seq<char>>(rest@),
            Err(error) => skipped(wire, tag, buf@) matches Err(fault) && error@ == error_text(
                fault,
            ),
        },
{
    let mut rest = buf;
    let ctx = DecodeContext::default();
    let skipped = match WireType::try_from(u64::from(wire)) {
        Ok(wire_type) => prost::encoding::skip_field(wire_type, tag, &mut rest, ctx),
        Err(error) => Err(error),
    };
    match skipped {
        Ok(()) => Ok(rest),
        Err(error) => Err(error.to_string()),
    }
}

/// A variable length integer takes at least one byte.
pub proof fn lemma_varint_len(bytes: Seq<u8>)
    ensures
        varint_len(bytes) matches Some(n) ==> 1 <= n <= bytes.len(),
    decreases bytes.len(),
{
    if bytes.len() > 0 && bytes[0] >= 0x80 {
        lemma_varint_len(bytes.skip(1));
    }
}

/// A field key takes at least one byte.
pub proof fn lemma_field_key_shorter(bytes: Seq<u8>)
    ensures
        field_key(bytes) matches Some((_, wire, rest)) ==> wire <= 5 && rest.len() < bytes.len(),
{
    lemma_varint_len(bytes);
}

/// A chunk takes at least one byte.
pub proof fn lemma_chunk_shorter(wire: u8, bytes: Seq<u8>)
    ensures
        chunk(wire, bytes) matches Some((_, rest)) ==> rest.len() < bytes.len(),
{
    lemma_varint_len(bytes);
}

/// What follows a value is no longer than what it was found in.
pub proof fn lemma_past_shorter(wire: u8, tag: u32, bytes: Seq<u8>, depth: nat)
    ensures
        past(wire, tag, bytes, depth) matches Ok(rest) ==> rest.len() <= bytes.len(),
    decreases depth, bytes.len(),
{
    lemma_varint_len(bytes);
    lemma_chunk_shorter(wire, bytes);
    if depth > 0 && wire == START_GROUP {
        lemma_past_group_shorter(tag, bytes, (depth - 1) as nat);
    }
}

/// What follows a group is no longer than what it was found in.
proof fn lemma_past_group_shorter(tag: u32, bytes: Seq<u8>, depth: nat)
    ensures
        past_group(tag, bytes, depth) matches Ok(rest) ==> rest.len() <= bytes.len(),
    decreases depth, bytes.len(),
{
    lemma_field_key_shorter(bytes);
    if let Some((inner, wire, value)) = field_key(bytes) {
        lemma_past_shorter(wire, inner, value, depth);
        if let Ok(rest) = past(wire, inner, value, depth) {
            if rest.len() < bytes.len() {
                lemma_past_group_shorter(tag, rest, depth);
            }
        }
    }
}

} // verus!
