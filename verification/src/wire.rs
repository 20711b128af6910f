//! The wire format of the published records: fields with a numbered key,
//! numbers as variable-length integers, texts and nested records with
//! their length before them.

use vstd::prelude::*;
use vstd::slice::slice_subrange;
use vstd::utf8::{decode_utf8, encode_utf8, valid_utf8};

verus! {

/// The largest number that a field may have.
pub const MAX_TAG: u32 = 0x1FFF_FFFF;

/// `n` as a variable-length integer: seven bits to a byte, least
/// significant first, and the top bit set on every byte but the last.
pub open spec fn varint(n: nat) -> Seq<u8>
    decreases n,
{
    if n < 0x80 {
        seq![n as u8]
    } else {
        seq![((n % 0x80) + 0x80) as u8] + varint(n / 0x80)
    }
}

/// The key of field `tag` with wire type `wire`.
pub open spec fn key(tag: u32, wire: nat) -> Seq<u8> {
    varint(tag as nat * 8 + wire)
}

/// Field `tag` holding the number `v`.
pub open spec fn number_field(tag: u32, v: nat) -> Seq<u8> {
    key(tag, 0) + varint(v)
}

/// Field `tag` holding the bytes `payload`, their number before them.
pub open spec fn bytes_field(tag: u32, payload: Seq<u8>) -> Seq<u8> {
    key(tag, 2) + varint(payload.len()) + payload
}

/// `prost::encoding::uint64::encode` appends the key of field `tag` with
/// the wire type of numbers, and then `value` as a variable-length
/// integer.
#[verifier::external_body]
fn encode_uint64(tag: u32, value: u64, buf: &mut Vec<u8>)
    requires
        1 <= tag <= MAX_TAG,
    ensures
        final(buf)@ == old(buf)@ + number_field(tag, value as nat),
{
    prost::encoding::uint64::encode(tag, &value, buf)
}

/// `prost::encoding::uint32::encode` appends the key of field `tag` with
/// the wire type of numbers, and then `value` as a variable-length
/// integer.
#[verifier::external_body]
fn encode_uint32(tag: u32, value: u32, buf: &mut Vec<u8>)
    requires
        1 <= tag <= MAX_TAG,
    ensures
        final(buf)@ == old(buf)@ + number_field(tag, value as nat),
{
    prost::encoding::uint32::encode(tag, &value, buf)
}

/// `prost::encoding::string::encode` appends the key of field `tag` with
/// the wire type of length-delimited values, the number of bytes of
/// `value` in UTF-8, and those bytes.
#[verifier::external_body]
fn encode_string(tag: u32, value: &String, buf: &mut Vec<u8>)
    requires
        1 <= tag <= MAX_TAG,
    ensures
        final(buf)@ == old(buf)@ + bytes_field(tag, encode_utf8(value@)),
{
    prost::encoding::string::encode(tag, value, buf)
}

/// `prost::encoding::bytes::encode` appends the key of field `tag` with
/// the wire type of length-delimited values, the number of bytes of
/// `value`, and those bytes.
#[verifier::external_body]
fn encode_bytes(tag: u32, value: &Vec<u8>, buf: &mut Vec<u8>)
    requires
        1 <= tag <= MAX_TAG,
    ensures
        final(buf)@ == old(buf)@ + bytes_field(tag, value@),
{
    prost::encoding::bytes::encode(tag, value, buf)
}

/// A number field as it stands in a record: left out where the number is
/// zero.
pub open spec fn number_if_set(tag: u32, v: nat) -> Seq<u8> {
    if v == 0 {
        Seq::empty()
    } else {
        number_field(tag, v)
    }
}

/// A text field as it stands in a record: left out where the text is
/// empty.
pub open spec fn text_if_set(tag: u32, s: Seq<char>) -> Seq<u8> {
    if s.len() == 0 {
        Seq::empty()
    } else {
        bytes_field(tag, encode_utf8(s))
    }
}

/// Appends a 64-bit number field unless the number is zero.
pub fn put_u64(buf: &mut Vec<u8>, tag: u32, value: u64)
    requires
        1 <= tag <= MAX_TAG,
    ensures
        final(buf)@ == old(buf)@ + number_if_set(tag, value as nat),
{
    if value != 0 {
        encode_uint64(tag, value, buf);
    } else {
        assert(buf@ == old(buf)@ + Seq::<u8>::empty());
    }
}

/// Appends a 32-bit number field unless the number is zero.
pub fn put_u32(buf: &mut Vec<u8>, tag: u32, value: u32)
    requires
        1 <= tag <= MAX_TAG,
    ensures
        final(buf)@ == old(buf)@ + number_if_set(tag, value as nat),
{
    if value != 0 {
        encode_uint32(tag, value, buf);
    } else {
        assert(buf@ == old(buf)@ + Seq::<u8>::empty());
    }
}

/// Appends a text field unless the text is empty.
pub fn put_text(buf: &mut Vec<u8>, tag: u32, value: &String)
    requires
        1 <= tag <= MAX_TAG,
    ensures
        final(buf)@ == old(buf)@ + text_if_set(tag, value@),
{
    if !value.as_str().is_empty() {
        encode_string(tag, value, buf);
    } else {
        assert(buf@ == old(buf)@ + Seq::<u8>::empty());
    }
}

/// Appends the field of a nested record whose fields are `body`.
pub fn put_nested(buf: &mut Vec<u8>, tag: u32, body: &Vec<u8>)
    requires
        1 <= tag <= MAX_TAG,
    ensures
        final(buf)@ == old(buf)@ + bytes_field(tag, body@),
{
    encode_bytes(tag, body, buf);
}

/// `prost::DecodeError`, the error that the decoding functions of prost
/// give. Nothing is known of what it holds.
#[verifier::external_type_specification]
#[verifier::external_body]
pub struct ExDecodeError(prost::DecodeError);

/// The number that `bytes` begin with as a variable-length integer, and
/// the number of bytes it takes, with `depth` bytes of it read before.
/// There is none where the bytes end before the last byte of the integer,
/// where the integer takes more than ten bytes, or where it does not fit
/// 64 bits.
pub open spec fn read_varint_from(bytes: Seq<u8>, depth: nat) -> Option<(nat, nat)>
    decreases 10 - depth,
{
    if depth >= 10 || bytes.len() == 0 {
        None
    } else if bytes[0] < 0x80 {
        if depth == 9 && bytes[0] >= 2 {
            None
        } else {
            Some((bytes[0] as nat, 1nat))
        }
    } else {
        match read_varint_from(bytes.drop_first(), depth + 1) {
            Some((v, n)) => Some(((bytes[0] - 0x80) as nat + 0x80 * v, n + 1)),
            None => None,
        }
    }
}

/// The number that `bytes` begin with as a variable-length integer, and
/// the number of bytes it takes.
pub open spec fn read_varint(bytes: Seq<u8>) -> Option<(nat, nat)> {
    read_varint_from(bytes, 0)
}

/// `prost::encoding::decode_varint` reads a variable-length integer from
/// the start of `buf` and moves `buf` past it. It fails where the bytes
/// hold none: they end too early, the integer takes more than ten bytes,
/// or its tenth byte is larger than one.
#[verifier::external_body]
fn decode_varint(buf: &mut &[u8]) -> (r: Result<u64, prost::DecodeError>)
    ensures
        match r {
            Ok(v) => {
                &&& read_varint(old(buf)@) matches Some((n, len))
                &&& n == v
                &&& final(buf)@ == old(buf)@.skip(len as int)
            },
            Err(_) => read_varint(old(buf)@) is None,
        },
{
    prost::encoding::decode_varint(buf)
}

/// Why bytes are no record.
#[derive(Clone, Debug, PartialEq, Eq)]
pub struct WireError {
    /// What was found wrong, for a log line.
    pub description: String,
}

/// The kinds of encoding that the key of a field can announce.
#[derive(Clone, Copy, Debug, PartialEq, Eq, Structural)]
pub enum WireKind {
    Varint,
    SixtyFourBit,
    LengthDelimited,
    StartGroup,
    EndGroup,
    ThirtyTwoBit,
}

/// The kind of encoding with the number `n`.
pub open spec fn kind_of(n: nat) -> WireKind {
    if n == 0 {
        WireKind::Varint
    } else if n == 1 {
        WireKind::SixtyFourBit
    } else if n == 2 {
        WireKind::LengthDelimited
    } else if n == 3 {
        WireKind::StartGroup
    } else if n == 4 {
        WireKind::EndGroup
    } else {
        WireKind::ThirtyTwoBit
    }
}

/// The key that `bytes` begin with: the number of the field, the kind of
/// its encoding, and the number of bytes that the key takes. There is
/// none where the bytes begin with no variable-length integer, or with one
/// that exceeds 32 bits, names no kind of encoding or names field zero.
pub open spec fn read_key(bytes: Seq<u8>) -> Option<(u32, WireKind, nat)> {
    match read_varint(bytes) {
        Some((k, n)) => if k > u32::MAX || k % 8 > 5 || k / 8 == 0 {
            None
        } else {
            Some(((k / 8) as u32, kind_of(k % 8), n))
        },
        None => None,
    }
}

/// The length-delimited value that `bytes` begin with: its bytes, and the
/// number of bytes that it takes with its length. There is none where the
/// bytes begin with no length or are fewer than it says.
pub open spec fn read_bytes(bytes: Seq<u8>) -> Option<(Seq<u8>, nat)> {
    match read_varint(bytes) {
        Some((len, n)) => if n + len <= bytes.len() {
            Some((bytes.subrange(n as int, (n + len) as int), n + len))
        } else {
            None
        },
        None => None,
    }
}

/// The text that `bytes` begin with: a length-delimited value in UTF-8.
pub open spec fn read_text(bytes: Seq<u8>) -> Option<(Seq<char>, nat)> {
    match read_bytes(bytes) {
        Some((payload, n)) => if valid_utf8(payload) {
            Some((decode_utf8(payload), n))
        } else {
            None
        },
        None => None,
    }
}

/// The number of bytes that a group of fields takes which begins at the
/// start of `bytes`, after the key that opens it as field `tag`, up to
/// and including the key that closes it; none where the bytes hold no
/// such group, or one that is nested more than a hundred deep.
pub uninterp spec fn skipped_group(tag: u32, bytes: Seq<u8>) -> Option<nat>;

/// The number of bytes that the value of a field takes whose key
/// announced the encoding `kind`, at the start of `bytes`.
pub open spec fn skipped(kind: WireKind, tag: u32, bytes: Seq<u8>) -> Option<nat> {
    match kind {
        WireKind::Varint => match read_varint(bytes) {
            Some((_, n)) => Some(n),
            None => None,
        },
        WireKind::SixtyFourBit => if bytes.len() >= 8 {
            Some(8nat)
        } else {
            None
        },
        WireKind::LengthDelimited => match read_bytes(bytes) {
            Some((_, n)) => Some(n),
            None => None,
        },
        WireKind::StartGroup => skipped_group(tag, bytes),
        WireKind::EndGroup => None,
        WireKind::ThirtyTwoBit => if bytes.len() >= 4 {
            Some(4nat)
        } else {
            None
        },
    }
}

/// `prost::encoding::decode_key` reads the key of a field from the start
/// of `buf` and moves `buf` past it. It fails where the bytes begin with
/// no variable-length integer, or with one that exceeds 32 bits, names no
/// kind of encoding or names field zero.
#[verifier::external_body]
fn decode_key(buf: &mut &[u8]) -> (r: Result<(u32, WireKind), prost::DecodeError>)
    ensures
        match r {
            Ok((tag, kind)) => read_key(old(buf)@) matches Some((t, k, n)) && t == tag && k == kind
                && final(buf)@ == old(buf)@.skip(n as int),
            Err(_) => read_key(old(buf)@) is None,
        },
{
    let (tag, wire_type) = prost::encoding::decode_key(buf)?;
    let kind = match wire_type {
        prost::encoding::WireType::Varint => WireKind::Varint,
        prost::encoding::WireType::SixtyFourBit => WireKind::SixtyFourBit,
        prost::encoding::WireType::LengthDelimited => WireKind::LengthDelimited,
        prost::encoding::WireType::StartGroup => WireKind::StartGroup,
        prost::encoding::WireType::EndGroup => WireKind::EndGroup,
        prost::encoding::WireType::ThirtyTwoBit => WireKind::ThirtyTwoBit,
    };
    Ok((tag, kind))
}

/// `prost::encoding::string::merge` reads a length-delimited value from
/// the start of `buf`, moves `buf` past it, and makes a string of its
/// bytes. It fails where the bytes begin with no length, are fewer than
/// it says, or are no UTF-8.
#[verifier::external_body]
fn decode_string(buf: &mut &[u8]) -> (r: Result<String, prost::DecodeError>)
    ensures
        match r {
            Ok(s) => {
                &&& read_text(old(buf)@) matches Some((t, n))
                &&& t == s@
                &&& final(buf)@ == old(buf)@.skip(n as int)
            },
            Err(_) => read_text(old(buf)@) is None,
        },
{
    let mut value = String::new();
    let context = prost::encoding::DecodeContext::default();
    let kind = prost::encoding::WireType::LengthDelimited;
    prost::encoding::string::merge(kind, &mut value, buf, context)?;
    Ok(value)
}

/// `prost::encoding::skip_field` moves `buf` past the value of a field
/// whose key announced the encoding `kind`: past a variable-length
/// integer, four bytes, eight bytes, a length-delimited value, or a group
/// of fields up to the key that closes field `tag`. It fails where the
/// bytes do not hold such a value, and for the kind that closes a group.
#[verifier::external_body]
fn skip_field(kind: WireKind, tag: u32, buf: &mut &[u8]) -> (r: Result<(), prost::DecodeError>)
    ensures
        match r {
            Ok(_) => {
                &&& skipped(kind, tag, old(buf)@) matches Some(n)
                &&& n <= old(buf)@.len()
                &&& final(buf)@ == old(buf)@.skip(n as int)
            },
            Err(_) => skipped(kind, tag, old(buf)@) is None,
        },
        kind == WireKind::StartGroup ==> (r is Ok <==> skipped_group(tag, old(buf)@) is Some),
{
    let wire_type = match kind {
        WireKind::Varint => prost::encoding::WireType::Varint,
        WireKind::SixtyFourBit => prost::encoding::WireType::SixtyFourBit,
        WireKind::LengthDelimited => prost::encoding::WireType::LengthDelimited,
        WireKind::StartGroup => prost::encoding::WireType::StartGroup,
        WireKind::EndGroup => prost::encoding::WireType::EndGroup,
        WireKind::ThirtyTwoBit => prost::encoding::WireType::ThirtyTwoBit,
    };
    prost::encoding::skip_field(wire_type, tag, buf, prost::encoding::DecodeContext::default())
}

/// The `Display` text of a `prost::DecodeError` says what was found
/// wrong, as far as that can be told.
#[verifier::external_body]
fn describe(e: &prost::DecodeError) -> String {
    e.to_string()
}

/// The error of the bytes that `e` was raised for.
fn rejected(e: prost::DecodeError) -> WireError {
    WireError { description: describe(&e) }
}

/// The error with the description `text`.
pub fn malformed(text: &str) -> (e: WireError)
    ensures
        e.description@ == text@,
{
    WireError { description: text.to_owned() }
}

/// Reads a variable-length integer from the start of `buf` and moves `buf`
/// past it.
pub fn take_varint(buf: &mut &[u8]) -> (r: Result<u64, WireError>)
    ensures
        match r {
            Ok(v) => {
                &&& read_varint(old(buf)@) matches Some((n, len))
                &&& n == v
                &&& final(buf)@ == old(buf)@.skip(len as int)
            },
            Err(_) => read_varint(old(buf)@) is None,
        },
{
    match decode_varint(buf) {
        Ok(v) => Ok(v),
        Err(e) => Err(rejected(e)),
    }
}

/// Reads the key of a field from the start of `buf` and moves `buf` past
/// it.
pub fn take_key(buf: &mut &[u8]) -> (r: Result<(u32, WireKind), WireError>)
    ensures
        match r {
            Ok((tag, kind)) => read_key(old(buf)@) matches Some((t, k, n)) && t == tag && k == kind
                && final(buf)@ == old(buf)@.skip(n as int),
            Err(_) => read_key(old(buf)@) is None,
        },
{
    match decode_key(buf) {
        Ok(key) => Ok(key),
        Err(e) => Err(rejected(e)),
    }
}

/// Reads a text from the start of `buf` and moves `buf` past it.
pub fn take_text(buf: &mut &[u8]) -> (r: Result<String, WireError>)
    ensures
        match r {
            Ok(s) => {
                &&& read_text(old(buf)@) matches Some((t, n))
                &&& t == s@
                &&& final(buf)@ == old(buf)@.skip(n as int)
            },
            Err(_) => read_text(old(buf)@) is None,
        },
{
    match decode_string(buf) {
        Ok(s) => Ok(s),
        Err(e) => Err(rejected(e)),
    }
}

/// Moves `buf` past the value of a field that is not looked at.
pub fn skip_value(kind: WireKind, tag: u32, buf: &mut &[u8]) -> (r: Result<(), WireError>)
    ensures
        match r {
            Ok(_) => {
                &&& skipped(kind, tag, old(buf)@) matches Some(n)
                &&& n <= old(buf)@.len()
                &&& final(buf)@ == old(buf)@.skip(n as int)
            },
            Err(_) => skipped(kind, tag, old(buf)@) is None,
        },
{
    match skip_field(kind, tag, buf) {
        Ok(_) => Ok(()),
        Err(e) => Err(rejected(e)),
    }
}

/// Reads a length-delimited value from the start of `buf`, moves `buf`
/// past it, and gives its bytes.
pub fn take_bytes<'a>(buf: &mut &'a [u8]) -> (r: Result<&'a [u8], WireError>)
    ensures
        match r {
            Ok(payload) => {
                &&& read_bytes(old(buf)@) matches Some((p, n))
                &&& p == payload@
                &&& final(buf)@ == old(buf)@.skip(n as int)
            },
            Err(_) => read_bytes(old(buf)@) is None,
        },
{
    let len = match take_varint(buf) {
        Ok(len) => len,
        Err(e) => {
            return Err(e);
        },
    };
    let rest: &'a [u8] = *buf;
    if len > rest.len() as u64 {
        return Err(malformed("buffer underflow"));
    }
    let n: usize = len as usize;
    let payload = slice_subrange(rest, 0, n);
    *buf = slice_subrange(rest, n, rest.len());
    proof {
        let (_, k) = read_varint(old(buf)@)->0;
        lemma_read_varint_bounds(old(buf)@, 0);
        assert(rest@ == old(buf)@.skip(k as int));
        assert(payload@ == old(buf)@.subrange(k as int, k + len));
        assert(buf@ == old(buf)@.skip(k + len));
    }
    Ok(payload)
}

/// A variable-length integer takes one byte at least and no more than
/// there are.
pub proof fn lemma_read_varint_bounds(bytes: Seq<u8>, depth: nat)
    ensures
        read_varint_from(bytes, depth) matches Some((_, n)) ==> 1 <= n <= bytes.len(),
    decreases 10 - depth,
{
    if depth >= 10 || bytes.len() == 0 {
    } else if bytes[0] < 0x80 {
    } else {
        lemma_read_varint_bounds(bytes.drop_first(), depth + 1);
    }
}

/// The number that the value of a field stands for, where its key
/// announced a variable-length integer.
pub open spec fn number_value(kind: WireKind, bytes: Seq<u8>) -> Option<(nat, nat)> {
    if kind == WireKind::Varint {
        read_varint(bytes)
    } else {
        None
    }
}

/// The text that the value of a field stands for, where its key announced
/// a length-delimited value.
pub open spec fn text_value(kind: WireKind, bytes: Seq<u8>) -> Option<(Seq<char>, nat)> {
    if kind == WireKind::LengthDelimited {
        read_text(bytes)
    } else {
        None
    }
}

/// The fields of the nested record that the value of a field holds, where
/// its key announced a length-delimited value.
pub open spec fn nested_value(kind: WireKind, bytes: Seq<u8>) -> Option<(Seq<u8>, nat)> {
    if kind == WireKind::LengthDelimited {
        read_bytes(bytes)
    } else {
        None
    }
}

/// The low 32 bits of `v`.
pub open spec fn low32(v: nat) -> u32 {
    (v % 0x1_0000_0000) as u32
}

/// Reads the value of a number field.
pub fn take_number(kind: WireKind, buf: &mut &[u8]) -> (r: Result<u64, WireError>)
    ensures
        match r {
            Ok(v) => number_value(kind, old(buf)@) matches Some((n, len)) && n == v && final(buf)@
                == old(buf)@.skip(len as int),
            Err(_) => number_value(kind, old(buf)@) is None,
        },
{
    match kind {
        WireKind::Varint => take_varint(buf),
        _ => Err(malformed("invalid wire type")),
    }
}

/// Reads the value of a text field.
pub fn take_text_value(kind: WireKind, buf: &mut &[u8]) -> (r: Result<String, WireError>)
    ensures
        match r {
            Ok(s) => text_value(kind, old(buf)@) matches Some((t, n)) && t == s@ && final(buf)@
                == old(buf)@.skip(n as int),
            Err(_) => text_value(kind, old(buf)@) is None,
        },
{
    match kind {
        WireKind::LengthDelimited => take_text(buf),
        _ => Err(malformed("invalid wire type")),
    }
}

/// Reads the value of a field that holds a nested record.
pub fn take_nested<'a>(kind: WireKind, buf: &mut &'a [u8]) -> (r: Result<&'a [u8], WireError>)
    ensures
        match r {
            Ok(payload) => nested_value(kind, old(buf)@) matches Some((p, n)) && p == payload@
                && final(buf)@ == old(buf)@.skip(n as int),
            Err(_) => nested_value(kind, old(buf)@) is None,
        },
{
    match kind {
        WireKind::LengthDelimited => take_bytes(buf),
        _ => Err(malformed("invalid wire type")),
    }
}

/// What a variable-length integer has to stay below, with `depth` bytes
/// of it read before, to fit 64 bits in all.
pub open spec fn varint_limit(depth: nat) -> nat {
    if depth == 0 {
        0x1_0000_0000_0000_0000
    } else if depth == 1 {
        0x200_0000_0000_0000
    } else if depth == 2 {
        0x4_0000_0000_0000
    } else if depth == 3 {
        0x800_0000_0000
    } else if depth == 4 {
        0x10_0000_0000
    } else if depth == 5 {
        0x2000_0000
    } else if depth == 6 {
        0x40_0000
    } else if depth == 7 {
        0x8000
    } else if depth == 8 {
        0x100
    } else {
        2
    }
}

/// Reading a variable-length integer that was written gives the number
/// back, whatever follows it.
pub proof fn lemma_varint_read_from(n: nat, rest: Seq<u8>, depth: nat)
    requires
        depth <= 9,
        n < varint_limit(depth),
    ensures
        read_varint_from(varint(n) + rest, depth) == Some((n, varint(n).len())),
    decreases n,
{
    let bytes = varint(n) + rest;
    if n < 0x80 {
        assert(bytes[0] == n as u8);
    } else {
        assert(bytes[0] == ((n % 0x80) + 0x80) as u8);
        assert(bytes.drop_first() =~= varint(n / 0x80) + rest);
        lemma_varint_read_from(n / 0x80, rest, depth + 1);
    }
}

/// Reading a 64-bit number that was written as a variable-length integer
/// gives the number back, whatever follows it.
pub proof fn lemma_varint_round_trip(n: nat, rest: Seq<u8>)
    requires
        n <= u64::MAX,
    ensures
        read_varint(varint(n) + rest) == Some((n, varint(n).len())),
        (varint(n) + rest).skip(varint(n).len() as int) == rest,
        varint(n).len() >= 1,
{
    lemma_varint_read_from(n, rest, 0);
    assert((varint(n) + rest).skip(varint(n).len() as int) =~= rest);
}

/// Reading a key that was written gives the number of the field and the
/// kind of encoding back.
pub proof fn lemma_key_round_trip(tag: u32, wire: nat, rest: Seq<u8>)
    requires
        1 <= tag <= MAX_TAG,
        wire <= 5,
    ensures
        read_key(key(tag, wire) + rest) == Some((tag, kind_of(wire), key(tag, wire).len())),
        (key(tag, wire) + rest).skip(key(tag, wire).len() as int) == rest,
        key(tag, wire).len() >= 1,
{
    lemma_varint_round_trip(tag as nat * 8 + wire, rest);
}

/// A number field that was written reads as its key and its number.
pub proof fn lemma_number_field_reads(tag: u32, v: nat, rest: Seq<u8>)
    requires
        1 <= tag <= MAX_TAG,
        v <= u64::MAX,
    ensures
        ({
            let bytes = number_field(tag, v) + rest;
            let k = key(tag, 0).len();
            let j = varint(v).len();
            &&& read_key(bytes) == Some((tag, WireKind::Varint, k))
            &&& number_value(WireKind::Varint, bytes.skip(k as int)) == Some((v, j))
            &&& bytes.skip((k + j) as int) == rest
            &&& 0 < k + j <= bytes.len()
        }),
{
    let bytes = number_field(tag, v) + rest;
    let k = key(tag, 0).len();
    let j = varint(v).len();
    assert(bytes =~= key(tag, 0) + (varint(v) + rest));
    lemma_key_round_trip(tag, 0, varint(v) + rest);
    lemma_varint_round_trip(v, rest);
    assert(bytes.skip(k as int) == varint(v) + rest);
    assert(bytes.skip((k + j) as int) =~= rest);
}

/// A length-delimited field that was written reads as its key and its
/// bytes.
pub proof fn lemma_bytes_field_reads(tag: u32, payload: Seq<u8>, rest: Seq<u8>)
    requires
        1 <= tag <= MAX_TAG,
        payload.len() <= u64::MAX,
    ensures
        ({
            let bytes = bytes_field(tag, payload) + rest;
            let k = key(tag, 2).len();
            let j = varint(payload.len()).len() + payload.len();
            &&& read_key(bytes) == Some((tag, WireKind::LengthDelimited, k))
            &&& read_bytes(bytes.skip(k as int)) == Some((payload, j))
            &&& bytes.skip((k + j) as int) == rest
            &&& 0 < k + j <= bytes.len()
        }),
{
    let bytes = bytes_field(tag, payload) + rest;
    let k = key(tag, 2).len();
    let l = varint(payload.len()).len();
    let tail = varint(payload.len()) + (payload + rest);
    assert(bytes =~= key(tag, 2) + tail);
    lemma_key_round_trip(tag, 2, tail);
    lemma_varint_round_trip(payload.len(), payload + rest);
    assert(bytes.skip(k as int) == tail);
    assert(tail.subrange(l as int, (l + payload.len()) as int) =~= payload);
    assert(bytes.skip((k + l + payload.len()) as int) =~= rest);
}

/// A text field that was written reads as its key and its text.
pub proof fn lemma_text_field_reads(tag: u32, s: Seq<char>, rest: Seq<u8>)
    requires
        1 <= tag <= MAX_TAG,
        encode_utf8(s).len() <= u64::MAX,
    ensures
        ({
            let bytes = bytes_field(tag, encode_utf8(s)) + rest;
            let k = key(tag, 2).len();
            let j = varint(encode_utf8(s).len()).len() + encode_utf8(s).len();
            &&& read_key(bytes) == Some((tag, WireKind::LengthDelimited, k))
            &&& text_value(WireKind::LengthDelimited, bytes.skip(k as int)) == Some((s, j))
            &&& bytes.skip((k + j) as int) == rest
            &&& 0 < k + j <= bytes.len()
        }),
{
    lemma_bytes_field_reads(tag, encode_utf8(s), rest);
    vstd::utf8::encode_utf8_valid_utf8(s);
    vstd::utf8::encode_utf8_decode_utf8(s);
}

} // verus!
