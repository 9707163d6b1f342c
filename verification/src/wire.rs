//! Wire primitives: base-128 varints, field keys and the two scalar field
//! kinds the messages use. The executable side of each primitive is the
//! `prost::encoding` function of the same purpose; this module states what
//! those functions do and proves that what is written reads back.

use vstd::prelude::*;
use vstd::utf8::*;

verus! {

/// Why a byte string was turned down. The wire format gives no way to tell
/// input that is cut short from input that is wrong, so there is one value.
#[derive(Clone, Copy, Debug, PartialEq, Eq, Structural)]
pub struct WireError;

/// How the payload of a field is laid out, as the low three bits of its key
/// say.
#[derive(Clone, Copy, Debug, PartialEq, Eq, Structural)]
pub enum WireType {
    Varint,
    SixtyFourBit,
    LengthDelimited,
    StartGroup,
    EndGroup,
    ThirtyTwoBit,
}

/// The smallest field number a key can carry.
pub const MIN_TAG: u32 = 1;

/// The largest field number a key can carry.
pub const MAX_TAG: u32 = 0x1fff_ffff;

impl WireType {
    /// The number that stands for the wire type inside a key.
    pub open spec fn number(self) -> nat {
        match self {
            WireType::Varint => 0,
            WireType::SixtyFourBit => 1,
            WireType::LengthDelimited => 2,
            WireType::StartGroup => 3,
            WireType::EndGroup => 4,
            WireType::ThirtyTwoBit => 5,
        }
    }

    /// The wire type a number stands for; 6 and 7 stand for none.
    pub open spec fn from_number(number: nat) -> Option<WireType> {
        if number == 0 {
            Some(WireType::Varint)
        } else if number == 1 {
            Some(WireType::SixtyFourBit)
        } else if number == 2 {
            Some(WireType::LengthDelimited)
        } else if number == 3 {
            Some(WireType::StartGroup)
        } else if number == 4 {
            Some(WireType::EndGroup)
        } else if number == 5 {
            Some(WireType::ThirtyTwoBit)
        } else {
            None
        }
    }
}

/// Makes `prost::DecodeError` known as a type. Nothing is said of what an
/// error holds: every function here that gets one answers with [`WireError`].
#[verifier::external_type_specification]
#[verifier::external_body]
pub struct ExProstDecodeError(prost::DecodeError);

// ---------------------------------------------------------------------------
// Varints
// ---------------------------------------------------------------------------

/// The bytes of a varint: the value in groups of seven bits, lowest group
/// first, every byte but the last with its top bit set.
pub open spec fn varint_bytes(value: nat) -> Seq<u8>
    decreases value,
{
    if value < 128 {
        seq![value as u8]
    } else {
        seq![(128 + value % 128) as u8] + varint_bytes(value / 128)
    }
}

/// The varint at the front of `bytes`, read as the `index`-th byte onwards of
/// a varint: its value and the number of bytes it takes. A varint ends at the
/// first byte below 128, takes at most ten bytes, and its tenth byte is 0 or 1.
pub open spec fn parse_varint_from(bytes: Seq<u8>, index: nat) -> Option<(nat, nat)>
    decreases bytes.len(),
{
    if bytes.len() == 0 || index >= 10 {
        None
    } else if bytes[0] < 128 {
        if index == 9 && bytes[0] >= 2 {
            None
        } else {
            Some((bytes[0] as nat, 1nat))
        }
    } else {
        match parse_varint_from(bytes.skip(1), index + 1) {
            Some((value, len)) => Some(((bytes[0] - 128 + 128 * value) as nat, len + 1)),
            None => None,
        }
    }
}

/// The varint at the front of `bytes`: its value and its length in bytes.
pub open spec fn parse_varint(bytes: Seq<u8>) -> Option<(nat, nat)> {
    parse_varint_from(bytes, 0)
}

/// Calls `prost::encoding::decode_varint` on a byte slice. The call succeeds
/// exactly when a varint stands at the front of `buf`; it then gives the
/// varint's value and the bytes that follow it.
#[verifier::external_body]
pub(crate) fn decode_varint<'a>(buf: &'a [u8]) -> (r: Result<(u64, &'a [u8]), prost::DecodeError>)
    ensures
        match r {
            Ok((value, rest)) => parse_varint(buf@) matches Some((v, n)) && value == v && n
                <= buf@.len() && rest@ == buf@.skip(n as int),
            Err(_) => parse_varint(buf@) is None,
        },
{
    let mut rest = buf;
    let value = prost::encoding::decode_varint(&mut rest)?;
    Ok((value, rest))
}

/// Calls `prost::encoding::encode_varint` on a byte vector, which appends the
/// bytes of the varint of `value`.
#[verifier::external_body]
pub(crate) fn encode_varint(value: u64, buf: &mut Vec<u8>)
    ensures
        final(buf)@ == old(buf)@ + varint_bytes(value as nat),
{
    prost::encoding::encode_varint(value, buf)
}

// ---------------------------------------------------------------------------
// Keys
// ---------------------------------------------------------------------------

/// The bytes of the key of field `tag` with wire type `wire_type`.
pub open spec fn key_bytes(tag: nat, wire_type: WireType) -> Seq<u8> {
    varint_bytes(tag * 8 + wire_type.number())
}

/// The key at the front of `bytes`: field number, wire type, and length in
/// bytes. A key is a varint that fits 32 bits, whose low three bits name a
/// wire type and whose other bits give a field number above zero.
pub open spec fn parse_key(bytes: Seq<u8>) -> Option<(nat, WireType, nat)> {
    match parse_varint(bytes) {
        Some((key, len)) => match WireType::from_number(key % 8) {
            Some(wire_type) => if key <= u32::MAX && key / 8 >= 1 {
                Some((key / 8, wire_type, len))
            } else {
                None
            },
            None => None,
        },
        None => None,
    }
}

/// Calls `prost::encoding::decode_key` on a byte slice. The call succeeds
/// exactly when a key stands at the front of `buf`; it then gives the field
/// number, the wire type and the bytes that follow the key.
#[verifier::external_body]
pub(crate) fn decode_key<'a>(buf: &'a [u8]) -> (r: Result<
    (u32, WireType, &'a [u8]),
    prost::DecodeError,
>)
    ensures
        match r {
            Ok((tag, wire_type, rest)) => parse_key(buf@) matches Some((t, w, n)) && tag == t
                && wire_type == w && n <= buf@.len() && rest@ == buf@.skip(n as int),
            Err(_) => parse_key(buf@) is None,
        },
{
    let mut rest = buf;
    let (tag, outside) = prost::encoding::decode_key(&mut rest)?;
    let wire_type = match outside {
        prost::encoding::WireType::Varint => WireType::Varint,
        prost::encoding::WireType::SixtyFourBit => WireType::SixtyFourBit,
        prost::encoding::WireType::LengthDelimited => WireType::LengthDelimited,
        prost::encoding::WireType::StartGroup => WireType::StartGroup,
        prost::encoding::WireType::EndGroup => WireType::EndGroup,
        prost::encoding::WireType::ThirtyTwoBit => WireType::ThirtyTwoBit,
    };
    Ok((tag, wire_type, rest))
}

/// Calls `prost::encoding::encode_key` on a byte vector, which appends the
/// key of field `tag` with wire type `wire_type`. The outside function
/// asserts that the field number is in range.
#[verifier::external_body]
pub(crate) fn encode_key(tag: u32, wire_type: WireType, buf: &mut Vec<u8>)
    requires
        MIN_TAG <= tag <= MAX_TAG,
    ensures
        final(buf)@ == old(buf)@ + key_bytes(tag as nat, wire_type),
{
    let outside = match wire_type {
        WireType::Varint => prost::encoding::WireType::Varint,
        WireType::SixtyFourBit => prost::encoding::WireType::SixtyFourBit,
        WireType::LengthDelimited => prost::encoding::WireType::LengthDelimited,
        WireType::StartGroup => prost::encoding::WireType::StartGroup,
        WireType::EndGroup => prost::encoding::WireType::EndGroup,
        WireType::ThirtyTwoBit => prost::encoding::WireType::ThirtyTwoBit,
    };
    prost::encoding::encode_key(tag, outside, buf)
}

// ---------------------------------------------------------------------------
// Fields that are passed over
// ---------------------------------------------------------------------------

/// The number of bytes that the payload of a field takes which the reader
/// passes over: what `prost::encoding::skip_field` consumes when it is handed
/// the wire type and field number of the key and the bytes after the key,
/// under its default nesting limit. `None` where it reports an error.
pub uninterp spec fn skipped_len(wire_type: WireType, tag: u32, bytes: Seq<u8>) -> Option<nat>;

/// Calls `prost::encoding::skip_field` on a byte slice, with the decode
/// context that `prost` starts every message with. Whether the call succeeds
/// and how many bytes it consumes depends on its arguments alone and is
/// given the name [`skipped_len`]; what it consumes is a prefix of `buf`, and
/// it hands back the bytes after that prefix.
#[verifier::external_body]
pub(crate) fn skip_field<'a>(wire_type: WireType, tag: u32, buf: &'a [u8]) -> (r: Result<
    &'a [u8],
    prost::DecodeError,
>)
    ensures
        match r {
            Ok(rest) => skipped_len(wire_type, tag, buf@) matches Some(n) && n <= buf@.len()
                && rest@ == buf@.skip(n as int),
            Err(_) => skipped_len(wire_type, tag, buf@) is None,
        },
{
    let outside = match wire_type {
        WireType::Varint => prost::encoding::WireType::Varint,
        WireType::SixtyFourBit => prost::encoding::WireType::SixtyFourBit,
        WireType::LengthDelimited => prost::encoding::WireType::LengthDelimited,
        WireType::StartGroup => prost::encoding::WireType::StartGroup,
        WireType::EndGroup => prost::encoding::WireType::EndGroup,
        WireType::ThirtyTwoBit => prost::encoding::WireType::ThirtyTwoBit,
    };
    let mut rest = buf;
    let context = prost::encoding::DecodeContext::default();
    prost::encoding::skip_field(outside, tag, &mut rest, context)?;
    Ok(rest)
}

// ---------------------------------------------------------------------------
// Length-delimited payloads
// ---------------------------------------------------------------------------

/// The length-delimited payload at the front of `bytes`: a varint that gives
/// a length, then that many bytes. Gives the payload and the number of bytes
/// that length and payload take together.
pub open spec fn parse_delimited(bytes: Seq<u8>) -> Option<(Seq<u8>, nat)> {
    match parse_varint(bytes) {
        Some((len, n)) => if n + len <= bytes.len() {
            Some((bytes.subrange(n as int, (n + len) as int), n + len))
        } else {
            None
        },
        None => None,
    }
}

/// The bytes of a length-delimited payload: its length as a varint, then the
/// payload.
pub open spec fn delimited_bytes(payload: Seq<u8>) -> Seq<u8> {
    varint_bytes(payload.len()) + payload
}

// ---------------------------------------------------------------------------
// String fields
// ---------------------------------------------------------------------------

/// The payload of a string field at the front of `bytes`, after a key of wire
/// type `wire_type`: a length-delimited payload that is valid UTF-8. Gives the
/// text and the number of bytes taken.
pub open spec fn parse_string(wire_type: WireType, bytes: Seq<u8>) -> Option<(Seq<char>, nat)> {
    if wire_type != WireType::LengthDelimited {
        None
    } else {
        match parse_delimited(bytes) {
            Some((payload, n)) => if valid_utf8(payload) {
                Some((decode_utf8(payload), n))
            } else {
                None
            },
            None => None,
        }
    }
}

/// The bytes of string field `tag` holding `text`: key, then the UTF-8 bytes
/// of the text as a length-delimited payload.
pub open spec fn string_field_bytes(tag: nat, text: Seq<char>) -> Seq<u8> {
    key_bytes(tag, WireType::LengthDelimited) + delimited_bytes(encode_utf8(text))
}

/// Calls `prost::encoding::string::merge` on an empty string and a byte
/// slice. The call succeeds exactly when the wire type is length-delimited
/// and a payload of valid UTF-8 stands at the front of `buf`; it then gives
/// the text and the bytes that follow the payload.
#[verifier::external_body]
pub(crate) fn merge_string<'a>(wire_type: WireType, buf: &'a [u8]) -> (r: Result<
    (String, &'a [u8]),
    prost::DecodeError,
>)
    ensures
        match r {
            Ok((value, rest)) => parse_string(wire_type, buf@) matches Some((text, n))
                && value@ == text && n <= buf@.len() && rest@ == buf@.skip(n as int),
            Err(_) => parse_string(wire_type, buf@) is None,
        },
{
    let outside = match wire_type {
        WireType::Varint => prost::encoding::WireType::Varint,
        WireType::SixtyFourBit => prost::encoding::WireType::SixtyFourBit,
        WireType::LengthDelimited => prost::encoding::WireType::LengthDelimited,
        WireType::StartGroup => prost::encoding::WireType::StartGroup,
        WireType::EndGroup => prost::encoding::WireType::EndGroup,
        WireType::ThirtyTwoBit => prost::encoding::WireType::ThirtyTwoBit,
    };
    let mut value = String::new();
    let mut rest = buf;
    let context = prost::encoding::DecodeContext::default();
    prost::encoding::string::merge(outside, &mut value, &mut rest, context)?;
    Ok((value, rest))
}

/// Calls `prost::encoding::string::encode` on a byte vector, which appends
/// string field `tag` holding `value`. The outside function asserts that the
/// field number is in range.
#[verifier::external_body]
pub(crate) fn encode_string(tag: u32, value: &String, buf: &mut Vec<u8>)
    requires
        MIN_TAG <= tag <= MAX_TAG,
    ensures
        final(buf)@ == old(buf)@ + string_field_bytes(tag as nat, value@),
{
    prost::encoding::string::encode(tag, value, buf)
}

// ---------------------------------------------------------------------------
// 32-bit integer fields
// ---------------------------------------------------------------------------

/// The 32-bit integer that a varint value carries: its low 32 bits, read as
/// two's complement.
pub open spec fn int32_of_varint(value: nat) -> i32 {
    let low = value % 0x1_0000_0000;
    if low < 0x8000_0000 {
        low as i32
    } else {
        (low - 0x1_0000_0000) as i32
    }
}

/// The varint value that carries a 32-bit integer: the integer widened to 64
/// bits with its sign, read as unsigned.
pub open spec fn varint_of_int32(value: i32) -> nat {
    if value >= 0 {
        value as nat
    } else {
        (value + 0x1_0000_0000_0000_0000) as nat
    }
}

/// The payload of a 32-bit integer field at the front of `bytes`, after a key
/// of wire type `wire_type`: a varint. Gives the integer and the number of
/// bytes taken.
pub open spec fn parse_int32(wire_type: WireType, bytes: Seq<u8>) -> Option<(i32, nat)> {
    if wire_type != WireType::Varint {
        None
    } else {
        match parse_varint(bytes) {
            Some((value, n)) => Some((int32_of_varint(value), n)),
            None => None,
        }
    }
}

/// The bytes of 32-bit integer field `tag` holding `value`.
pub open spec fn int32_field_bytes(tag: nat, value: i32) -> Seq<u8> {
    key_bytes(tag, WireType::Varint) + varint_bytes(varint_of_int32(value))
}

/// Calls `prost::encoding::int32::merge` on a zero and a byte slice. The call
/// succeeds exactly when the wire type is varint and a varint stands at the
/// front of `buf`; it then gives the integer the varint carries and the bytes
/// that follow it.
#[verifier::external_body]
pub(crate) fn merge_int32<'a>(wire_type: WireType, buf: &'a [u8]) -> (r: Result<
    (i32, &'a [u8]),
    prost::DecodeError,
>)
    ensures
        match r {
            Ok((value, rest)) => parse_int32(wire_type, buf@) matches Some((v, n)) && value == v
                && n <= buf@.len() && rest@ == buf@.skip(n as int),
            Err(_) => parse_int32(wire_type, buf@) is None,
        },
{
    let outside = match wire_type {
        WireType::Varint => prost::encoding::WireType::Varint,
        WireType::SixtyFourBit => prost::encoding::WireType::SixtyFourBit,
        WireType::LengthDelimited => prost::encoding::WireType::LengthDelimited,
        WireType::StartGroup => prost::encoding::WireType::StartGroup,
        WireType::EndGroup => prost::encoding::WireType::EndGroup,
        WireType::ThirtyTwoBit => prost::encoding::WireType::ThirtyTwoBit,
    };
    let mut value = 0i32;
    let mut rest = buf;
    let context = prost::encoding::DecodeContext::default();
    prost::encoding::int32::merge(outside, &mut value, &mut rest, context)?;
    Ok((value, rest))
}

/// Calls `prost::encoding::int32::encode` on a byte vector, which appends
/// 32-bit integer field `tag` holding `value`. The outside function asserts
/// that the field number is in range.
#[verifier::external_body]
pub(crate) fn encode_int32(tag: u32, value: i32, buf: &mut Vec<u8>)
    requires
        MIN_TAG <= tag <= MAX_TAG,
    ensures
        final(buf)@ == old(buf)@ + int32_field_bytes(tag as nat, value),
{
    prost::encoding::int32::encode(tag, &value, buf)
}

// ---------------------------------------------------------------------------
// What is written reads back
// ---------------------------------------------------------------------------

/// One more than the largest value a varint can still carry from its
/// `index`-th byte onwards.
pub open spec fn varint_limit(index: nat) -> nat
    decreases 9 - index,
{
    if index >= 9 {
        2
    } else {
        128 * varint_limit(index + 1)
    }
}

/// A varint read from the start of its bytes carries less than 2^64.
pub proof fn lemma_varint_limit()
    ensures
        varint_limit(0) == 0x1_0000_0000_0000_0000,
{
    reveal_with_fuel(varint_limit, 10);
}

/// A varint that parses takes at least one byte and no more than are there,
/// ends within ten bytes, and its value is below the limit of where it began.
pub proof fn lemma_parse_varint_from_bounds(bytes: Seq<u8>, index: nat)
    ensures
        parse_varint_from(bytes, index) matches Some((value, len)) ==> 1 <= len <= bytes.len()
            && index + len <= 10 && value < varint_limit(index),
    decreases bytes.len(),
{
    if bytes.len() > 0 && index < 10 {
        if bytes[0] >= 128 {
            lemma_parse_varint_from_bounds(bytes.skip(1), index + 1);
        } else if index < 9 {
            lemma_varint_limit_floor(index + 1);
        }
    }
}

proof fn lemma_varint_limit_floor(index: nat)
    ensures
        varint_limit(index) >= 2,
    decreases 9 - index,
{
    if index < 9 {
        lemma_varint_limit_floor(index + 1);
    }
}

/// A varint that parses takes between one and ten of the bytes that are
/// there, and its value fits 64 bits.
pub proof fn lemma_parse_varint_bounds(bytes: Seq<u8>)
    ensures
        parse_varint(bytes) matches Some((value, len)) ==> 1 <= len <= bytes.len() && len <= 10
            && value <= u64::MAX,
{
    lemma_parse_varint_from_bounds(bytes, 0);
    lemma_varint_limit();
}

/// The bytes of a varint are at least one and at most ten for a value that
/// fits 64 bits.
pub proof fn lemma_varint_bytes_len(value: nat)
    ensures
        1 <= varint_bytes(value).len(),
        value <= u64::MAX ==> varint_bytes(value).len() <= 10,
{
    lemma_varint_limit();
    lemma_varint_bytes_len_from(value, 0);
}

proof fn lemma_varint_bytes_len_from(value: nat, index: nat)
    requires
        index <= 9,
    ensures
        1 <= varint_bytes(value).len(),
        value < varint_limit(index) ==> index + varint_bytes(value).len() <= 10,
    decreases value,
{
    if value >= 128 {
        if index < 9 {
            lemma_varint_bytes_len_from(value / 128, index + 1);
        } else {
            lemma_varint_bytes_len_from(value / 128, index);
        }
    }
}

/// Reading the bytes of a varint, whatever follows them, gives the value
/// back and takes exactly those bytes.
pub proof fn lemma_varint_reads_back(value: nat, rest: Seq<u8>)
    requires
        value <= u64::MAX,
    ensures
        parse_varint(varint_bytes(value) + rest) == Some((value, varint_bytes(value).len())),
{
    lemma_varint_limit();
    lemma_varint_reads_back_from(value, rest, 0);
}

proof fn lemma_varint_reads_back_from(value: nat, rest: Seq<u8>, index: nat)
    requires
        index <= 9,
        value < varint_limit(index),
    ensures
        parse_varint_from(varint_bytes(value) + rest, index) == Some(
            (value, varint_bytes(value).len()),
        ),
    decreases value,
{
    if value >= 128 {
        let bytes = varint_bytes(value) + rest;
        assert(bytes.skip(1) =~= varint_bytes(value / 128) + rest);
        lemma_varint_reads_back_from(value / 128, rest, index + 1);
    }
}

/// A key that parses takes at least one byte and no more than are there, and
/// its field number is in range.
pub proof fn lemma_parse_key_bounds(bytes: Seq<u8>)
    ensures
        parse_key(bytes) matches Some((tag, wire_type, len)) ==> 1 <= len <= bytes.len()
            && MIN_TAG <= tag <= MAX_TAG,
{
    lemma_parse_varint_bounds(bytes);
}

/// Reading the bytes of a key, whatever follows them, gives the field number
/// and the wire type back and takes exactly those bytes.
pub proof fn lemma_key_reads_back(tag: nat, wire_type: WireType, rest: Seq<u8>)
    requires
        MIN_TAG <= tag <= MAX_TAG,
    ensures
        parse_key(key_bytes(tag, wire_type) + rest) == Some(
            (tag, wire_type, key_bytes(tag, wire_type).len()),
        ),
{
    lemma_varint_reads_back(tag * 8 + wire_type.number(), rest);
}

/// Reading a length-delimited payload that was written, whatever follows it,
/// gives the payload back and takes exactly its bytes.
pub proof fn lemma_delimited_reads_back(payload: Seq<u8>, rest: Seq<u8>)
    requires
        payload.len() <= u64::MAX,
    ensures
        parse_delimited(delimited_bytes(payload) + rest) == Some(
            (payload, delimited_bytes(payload).len()),
        ),
{
    let head = varint_bytes(payload.len());
    assert(delimited_bytes(payload) + rest =~= head + (payload + rest));
    lemma_varint_reads_back(payload.len(), payload + rest);
    assert((head + (payload + rest)).subrange(head.len() as int, (head.len() + payload.len()) as int)
        =~= payload);
}

/// The integer that the varint of a 32-bit integer carries is that integer.
pub proof fn lemma_int32_reads_back(value: i32)
    ensures
        varint_of_int32(value) <= u64::MAX,
        int32_of_varint(varint_of_int32(value)) == value,
{
}

// ---------------------------------------------------------------------------
// What is cut short does not read
// ---------------------------------------------------------------------------

/// The bytes of a varint with one or more bytes missing at the end are no
/// varint.
pub proof fn lemma_varint_cut_short(value: nat, kept: int)
    requires
        0 <= kept < varint_bytes(value).len(),
    ensures
        parse_varint(varint_bytes(value).take(kept)) is None,
{
    lemma_varint_cut_short_from(value, kept, 0);
}

proof fn lemma_varint_cut_short_from(value: nat, kept: int, index: nat)
    requires
        0 <= kept < varint_bytes(value).len(),
    ensures
        parse_varint_from(varint_bytes(value).take(kept), index) is None,
    decreases value,
{
    if kept > 0 && index < 10 {
        let cut = varint_bytes(value).take(kept);
        assert(cut.skip(1) =~= varint_bytes(value / 128).take(kept - 1));
        lemma_varint_cut_short_from(value / 128, kept - 1, index + 1);
    }
}

/// The bytes of a length-delimited payload with one or more bytes missing at
/// the end are no length-delimited payload.
pub proof fn lemma_delimited_cut_short(payload: Seq<u8>, kept: int)
    requires
        payload.len() <= u64::MAX,
        0 <= kept < delimited_bytes(payload).len(),
    ensures
        parse_delimited(delimited_bytes(payload).take(kept)) is None,
{
    let head = varint_bytes(payload.len());
    let cut = delimited_bytes(payload).take(kept);
    if kept < head.len() {
        assert(cut =~= head.take(kept));
        lemma_varint_cut_short(payload.len(), kept);
    } else {
        let part = payload.take(kept - head.len());
        assert(cut =~= head + part);
        lemma_varint_reads_back(payload.len(), part);
    }
}

} // verus!
