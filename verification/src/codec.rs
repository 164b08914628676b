//! The canonical serialisation of host-capability payloads.
//!
//! Every reply that crosses the bus is a byte string; this module fixes one
//! canonical encoding per payload shape, so record/replay journals are
//! stable across builds and a recorded reply replays bit-for-bit. Fields are
//! length-prefixed byte strings; strings travel as UTF-8.

use vstd::prelude::*;
use vstd::utf8::{encode_utf8, valid_utf8};
use crate::kube::{KubeObject, KubeObjectList};

verus! {

/// Why a payload was refused.
#[derive(Clone, Debug, PartialEq)]
pub enum CodecError {
    /// The payload ends before the announced length.
    Truncated,
    /// A byte that should tag an option or a boolean holds something else.
    BadTag,
    /// A string field is not valid UTF-8.
    BadUtf8,
    /// The payload has bytes left over after the value.
    TrailingBytes,
}

/// Relies on String::from_utf8: on success the returned string's UTF-8
/// encoding is exactly the input, and invalid UTF-8 is refused.
#[verifier::external_body]
pub(crate) fn string_from_utf8(bytes: Vec<u8>) -> (r: Result<String, CodecError>)
    ensures
        r matches Ok(s) ==> encode_utf8(s@) == bytes@,
        r is Err ==> !valid_utf8(bytes@),
{
    String::from_utf8(bytes).map_err(|_| CodecError::BadUtf8)
}

/// A length, as eight little-endian bytes.
pub open spec fn u64_le(n: u64) -> Seq<u8> {
    seq![
        (n & 0xff) as u8,
        ((n >> 8) & 0xff) as u8,
        ((n >> 16) & 0xff) as u8,
        ((n >> 24) & 0xff) as u8,
        ((n >> 32) & 0xff) as u8,
        ((n >> 40) & 0xff) as u8,
        ((n >> 48) & 0xff) as u8,
        ((n >> 56) & 0xff) as u8,
    ]
}

/// A length-prefixed byte string.
pub open spec fn spec_field(b: Seq<u8>) -> Seq<u8> {
    u64_le(b.len() as u64) + b
}

/// An optional length-prefixed byte string, tagged present or absent.
pub open spec fn spec_opt_field(o: Option<Seq<u8>>) -> Seq<u8> {
    match o {
        None => seq![0u8],
        Some(b) => seq![1u8] + spec_field(b),
    }
}

/// One mirrored object: name, optional namespace, raw contents.
pub open spec fn spec_encode_item(o: KubeObject) -> Seq<u8> {
    spec_field(encode_utf8(o.name@)) + spec_opt_field(
        match o.namespace {
            Some(n) => Some(encode_utf8(n@)),
            None => None,
        },
    ) + spec_field(o.data@)
}

pub open spec fn spec_encode_items(items: Seq<KubeObject>) -> Seq<u8>
    decreases items.len(),
{
    if items.len() == 0 {
        Seq::empty()
    } else {
        spec_encode_items(items.drop_last()) + spec_encode_item(items.last())
    }
}

/// A list payload: envelope fields, item count, then every item.
pub open spec fn spec_encode_list(l: KubeObjectList) -> Seq<u8> {
    spec_field(encode_utf8(l.api_version@)) + spec_field(encode_utf8(l.kind@)) + u64_le(
        l.items@.len() as u64,
    ) + spec_encode_items(l.items@)
}

/// A boolean payload: one tag byte.
pub open spec fn spec_encode_bool(b: bool) -> Seq<u8> {
    if b {
        seq![1u8]
    } else {
        seq![0u8]
    }
}

/// A string payload: its UTF-8 bytes, unframed.
pub open spec fn spec_encode_string(s: Seq<char>) -> Seq<u8> {
    encode_utf8(s)
}

proof fn lemma_u64_le_inj(a: u64, b: u64)
    requires
        u64_le(a) == u64_le(b),
    ensures
        a == b,
{
    assert(u64_le(a)[0] == u64_le(b)[0]);
    assert(u64_le(a)[1] == u64_le(b)[1]);
    assert(u64_le(a)[2] == u64_le(b)[2]);
    assert(u64_le(a)[3] == u64_le(b)[3]);
    assert(u64_le(a)[4] == u64_le(b)[4]);
    assert(u64_le(a)[5] == u64_le(b)[5]);
    assert(u64_le(a)[6] == u64_le(b)[6]);
    assert(u64_le(a)[7] == u64_le(b)[7]);
    assert(a == b) by (bit_vector)
        requires
            (a & 0xff) as u8 == (b & 0xff) as u8,
            ((a >> 8) & 0xff) as u8 == ((b >> 8) & 0xff) as u8,
            ((a >> 16) & 0xff) as u8 == ((b >> 16) & 0xff) as u8,
            ((a >> 24) & 0xff) as u8 == ((b >> 24) & 0xff) as u8,
            ((a >> 32) & 0xff) as u8 == ((b >> 32) & 0xff) as u8,
            ((a >> 40) & 0xff) as u8 == ((b >> 40) & 0xff) as u8,
            ((a >> 48) & 0xff) as u8 == ((b >> 48) & 0xff) as u8,
            ((a >> 56) & 0xff) as u8 == ((b >> 56) & 0xff) as u8,
    ;
}

/// Where a length-prefixed field stands in a byte string, everything about
/// it is pinned: its length prefix, its body, and what follows.
proof fn lemma_field_at(bytes: Seq<u8>, pos: int, b: Seq<u8>, tail: Seq<u8>)
    requires
        0 <= pos <= bytes.len(),
        bytes.len() <= u64::MAX,
        bytes.subrange(pos, bytes.len() as int) == spec_field(b) + tail,
    ensures
        pos + 8 + b.len() <= bytes.len(),
        b.len() <= u64::MAX,
        bytes.subrange(pos, pos + 8) == u64_le(b.len() as u64),
        bytes.subrange(pos + 8, pos + 8 + b.len() as int) == b,
        bytes.subrange(pos + 8 + b.len() as int, bytes.len() as int) == tail,
{
    let whole = bytes.subrange(pos, bytes.len() as int);
    assert(whole.len() == bytes.len() - pos);
    assert((spec_field(b) + tail).len() == 8 + b.len() + tail.len());
    assert forall|j: int| 0 <= j < whole.len() implies whole[j] == bytes[pos + j] by {}
    assert(bytes.subrange(pos, pos + 8) =~= u64_le(b.len() as u64)) by {
        assert forall|j: int| 0 <= j < 8 implies bytes[pos + j] == #[trigger] u64_le(
            b.len() as u64,
        )[j] by {
            assert(whole[j] == (spec_field(b) + tail)[j]);
        }
    }
    assert(bytes.subrange(pos + 8, pos + 8 + b.len() as int) =~= b) by {
        assert forall|j: int| 0 <= j < b.len() implies bytes[pos + 8 + j] == b[j] by {
            assert(whole[8 + j] == (spec_field(b) + tail)[8 + j]);
        }
    }
    assert(bytes.subrange(pos + 8 + b.len() as int, bytes.len() as int) =~= tail) by {
        assert forall|j: int| 0 <= j < tail.len() implies bytes[pos + 8 + b.len() + j] == tail[j] by {
            assert(whole[8 + b.len() + j] == (spec_field(b) + tail)[8 + b.len() + j]);
        }
    }
}

/// Where a tagged optional field stands in a byte string, the tag byte and
/// what follows are pinned.
proof fn lemma_opt_at(bytes: Seq<u8>, pos: int, o: Option<Seq<u8>>, tail: Seq<u8>)
    requires
        0 <= pos <= bytes.len(),
        bytes.subrange(pos, bytes.len() as int) == spec_opt_field(o) + tail,
    ensures
        pos < bytes.len(),
        match o {
            None => bytes[pos] == 0 && bytes.subrange(pos + 1, bytes.len() as int) == tail,
            Some(b) => bytes[pos] == 1 && bytes.subrange(pos + 1, bytes.len() as int)
                == spec_field(b) + tail,
        },
{
    let whole = bytes.subrange(pos, bytes.len() as int);
    assert(whole.len() == bytes.len() - pos);
    assert forall|j: int| 0 <= j < whole.len() implies whole[j] == bytes[pos + j] by {}
    match o {
        None => {
            assert(whole[0] == bytes[pos]);
            assert(bytes.subrange(pos + 1, bytes.len() as int) =~= tail) by {
                assert forall|j: int| 0 <= j < tail.len() implies bytes[pos + 1 + j] == tail[j] by {
                    assert(whole[1 + j] == (spec_opt_field(o) + tail)[1 + j]);
                }
            }
        },
        Some(b) => {
            assert(whole[0] == bytes[pos]);
            assert(bytes.subrange(pos + 1, bytes.len() as int) =~= spec_field(b) + tail) by {
                assert forall|j: int| 0 <= j < 8 + b.len() + tail.len() implies bytes[pos + 1 + j]
                    == (spec_field(b) + tail)[j] by {
                    assert(whole[1 + j] == (spec_opt_field(o) + tail)[1 + j]);
                }
            }
        },
    }
}

/// The item encoding can be read off the front as well: the first item's
/// bytes, then the rest.
proof fn lemma_items_front(items: Seq<KubeObject>)
    requires
        items.len() > 0,
    ensures
        spec_encode_items(items) == spec_encode_item(items[0]) + spec_encode_items(
            items.drop_first(),
        ),
    decreases items.len(),
{
    if items.len() == 1 {
        assert(items.drop_last() =~= Seq::<KubeObject>::empty());
        assert(items.drop_first() =~= Seq::<KubeObject>::empty());
        assert(spec_encode_items(items) =~= spec_encode_item(items[0]) + spec_encode_items(
            items.drop_first(),
        ));
    } else {
        lemma_items_front(items.drop_last());
        assert(items.drop_last()[0] == items[0]);
        assert(items.drop_first().drop_last() =~= items.drop_last().drop_first());
        assert(items.drop_first().last() == items.last());
        assert(spec_encode_items(items.drop_first()) == spec_encode_items(
            items.drop_first().drop_last(),
        ) + spec_encode_item(items.drop_first().last()));
        assert(spec_encode_items(items) =~= spec_encode_item(items[0]) + spec_encode_items(
            items.drop_first(),
        ));
    }
}

/// Every item takes at least one byte, so the encoding is at least as long
/// as the item count.
proof fn lemma_items_min_len(items: Seq<KubeObject>)
    ensures
        spec_encode_items(items).len() >= items.len(),
    decreases items.len(),
{
    if items.len() > 0 {
        lemma_items_min_len(items.drop_last());
    }
}

/// Where a bare eight-byte length stands in a byte string.
proof fn lemma_u64_at(bytes: Seq<u8>, pos: int, n: u64, tail: Seq<u8>)
    requires
        0 <= pos <= bytes.len(),
        bytes.subrange(pos, bytes.len() as int) == u64_le(n) + tail,
    ensures
        pos + 8 <= bytes.len(),
        bytes.subrange(pos, pos + 8) == u64_le(n),
        bytes.subrange(pos + 8, bytes.len() as int) == tail,
{
    let whole = bytes.subrange(pos, bytes.len() as int);
    assert(whole.len() == bytes.len() - pos);
    assert forall|j: int| 0 <= j < whole.len() implies whole[j] == bytes[pos + j] by {}
    assert(bytes.subrange(pos, pos + 8) =~= u64_le(n)) by {
        assert forall|j: int| 0 <= j < 8 implies bytes[pos + j] == #[trigger] u64_le(n)[j] by {
            assert(whole[j] == (u64_le(n) + tail)[j]);
        }
    }
    assert(bytes.subrange(pos + 8, bytes.len() as int) =~= tail) by {
        assert forall|j: int| 0 <= j < tail.len() implies bytes[pos + 8 + j] == tail[j] by {
            assert(whole[8 + j] == (u64_le(n) + tail)[8 + j]);
        }
    }
}

/// A parsed field standing where an expected field stands is that field:
/// the length prefixes agree, so the bodies and the end positions do too.
proof fn lemma_field_pinned(bytes: Seq<u8>, pos: int, b: Seq<u8>, got: Seq<u8>, end: int)
    requires
        0 <= pos,
        pos <= end <= bytes.len(),
        bytes.subrange(pos, pos + 8) == u64_le(b.len() as u64),
        pos + 8 + b.len() <= bytes.len(),
        b.len() <= u64::MAX,
        got.len() <= u64::MAX,
        bytes.subrange(pos + 8, pos + 8 + b.len() as int) == b,
        spec_field(got) == bytes.subrange(pos, end),
    ensures
        got == b,
        end == pos + 8 + b.len(),
{
    let parsed = bytes.subrange(pos, end);
    assert(parsed.len() == end - pos);
    assert(spec_field(got).len() == 8 + got.len());
    assert(end - pos == 8 + got.len());
    assert(bytes.subrange(pos, pos + 8) =~= u64_le(got.len() as u64)) by {
        assert forall|j: int| 0 <= j < 8 implies bytes[pos + j] == #[trigger] u64_le(
            got.len() as u64,
        )[j] by {
            assert(parsed[j] == bytes[pos + j]);
            assert(parsed[j] == spec_field(got)[j]);
        }
    }
    lemma_u64_le_inj(got.len() as u64, b.len() as u64);
    assert(got.len() == b.len());
    assert(end == pos + 8 + b.len());
    assert(got =~= b) by {
        assert forall|j: int| 0 <= j < b.len() implies got[j] == b[j] by {
            assert(parsed[8 + j] == bytes[pos + 8 + j]);
            assert(parsed[8 + j] == spec_field(got)[8 + j]);
            assert(spec_field(got)[8 + j] == got[j]);
            assert(bytes.subrange(pos + 8, pos + 8 + b.len() as int)[j] == bytes[pos + 8 + j]);
        }
    }
}

fn push_u64_le(out: &mut Vec<u8>, n: u64)
    ensures
        final(out)@ == old(out)@ + u64_le(n),
{
    out.push((n & 0xff) as u8);
    out.push(((n >> 8) & 0xff) as u8);
    out.push(((n >> 16) & 0xff) as u8);
    out.push(((n >> 24) & 0xff) as u8);
    out.push(((n >> 32) & 0xff) as u8);
    out.push(((n >> 40) & 0xff) as u8);
    out.push(((n >> 48) & 0xff) as u8);
    out.push(((n >> 56) & 0xff) as u8);
    proof {
        assert(out@ =~= old(out)@ + u64_le(n));
    }
}

fn push_bytes(out: &mut Vec<u8>, b: &[u8])
    ensures
        final(out)@ == old(out)@ + b@,
{
    let n = b.len();
    let mut i: usize = 0;
    while i < n
        invariant
            i <= n,
            n == b@.len(),
            out@ == old(out)@ + b@.take(i as int),
        decreases n - i,
    {
        out.push(b[i]);
        proof {
            assert(out@ =~= old(out)@ + b@.take(i as int + 1));
        }
        i += 1;
    }
    proof {
        assert(b@.take(n as int) =~= b@);
    }
}

fn push_field(out: &mut Vec<u8>, b: &[u8])
    ensures
        final(out)@ == old(out)@ + spec_field(b@),
{
    push_u64_le(out, b.len() as u64);
    push_bytes(out, b);
    proof {
        assert(out@ =~= old(out)@ + spec_field(b@));
    }
}

fn push_str_field(out: &mut Vec<u8>, s: &str)
    ensures
        final(out)@ == old(out)@ + spec_field(encode_utf8(s@)),
{
    push_field(out, s.as_bytes());
}

/// Encode a boolean payload.
pub fn encode_bool(b: bool) -> (r: Vec<u8>)
    ensures
        r@ == spec_encode_bool(b),
{
    let mut out: Vec<u8> = Vec::new();
    if b {
        out.push(1);
    } else {
        out.push(0);
    }
    proof {
        assert(out@ =~= spec_encode_bool(b));
    }
    out
}

/// Decode a boolean payload: exactly one tag byte.
pub fn decode_bool(bytes: &Vec<u8>) -> (r: Result<bool, CodecError>)
    ensures
        r matches Ok(b) ==> bytes@ == spec_encode_bool(b),
        bytes@ == spec_encode_bool(true) ==> r == Ok::<bool, CodecError>(true),
        bytes@ == spec_encode_bool(false) ==> r == Ok::<bool, CodecError>(false),
{
    if bytes.len() != 1 {
        return Err(CodecError::Truncated);
    }
    let b = bytes[0];
    if b == 1 {
        proof {
            assert(bytes@ =~= spec_encode_bool(true));
        }
        Ok(true)
    } else if b == 0 {
        proof {
            assert(bytes@ =~= spec_encode_bool(false));
        }
        Ok(false)
    } else {
        Err(CodecError::BadTag)
    }
}

/// Encode a string payload.
pub fn encode_string(s: &str) -> (r: Vec<u8>)
    ensures
        r@ == spec_encode_string(s@),
{
    s.as_bytes_vec()
}

/// Decode a string payload: every valid UTF-8 payload decodes, to the one
/// string whose canonical encoding it is; anything else is refused.
pub fn decode_string(bytes: Vec<u8>) -> (r: Result<String, CodecError>)
    ensures
        r matches Ok(s) ==> bytes@ == spec_encode_string(s@),
        r is Err ==> !valid_utf8(bytes@),
        valid_utf8(bytes@) ==> r is Ok,
{
    match string_from_utf8(bytes) {
        Ok(s) => Ok(s),
        Err(e) => Err(e),
    }
}

/// Round trip: decoding an encoded string gives the string back.
pub proof fn lemma_string_round_trip(s: Seq<char>, t: Seq<char>)
    requires
        spec_encode_string(s) == spec_encode_string(t),
    ensures
        s == t,
{
    broadcast use vstd::utf8::encode_utf8_decode_utf8;

    assert(vstd::utf8::decode_utf8(encode_utf8(s)) == s);
    assert(vstd::utf8::decode_utf8(encode_utf8(t)) == t);
}

/// Encode a list payload.
pub fn encode_object_list(l: &KubeObjectList) -> (r: Vec<u8>)
    ensures
        r@ == spec_encode_list(*l),
{
    let mut out: Vec<u8> = Vec::new();
    push_str_field(&mut out, l.api_version.as_str());
    push_str_field(&mut out, l.kind.as_str());
    push_u64_le(&mut out, l.items.len() as u64);
    let ghost header = out@;
    let n = l.items.len();
    let mut i: usize = 0;
    while i < n
        invariant
            i <= n,
            n == l.items@.len(),
            out@ == header + spec_encode_items(l.items@.take(i as int)),
        decreases n - i,
    {
        let item = &l.items[i];
        push_str_field(&mut out, item.name.as_str());
        match &item.namespace {
            None => out.push(0),
            Some(ns) => {
                out.push(1);
                push_str_field(&mut out, ns.as_str());
            },
        }
        push_field(&mut out, item.data.as_slice());
        proof {
            assert(l.items@.take(i as int + 1).drop_last() =~= l.items@.take(i as int));
            assert(l.items@.take(i as int + 1).last() == l.items@[i as int]);
            assert(out@ =~= header + spec_encode_items(l.items@.take(i as int + 1)));
        }
        i += 1;
    }
    proof {
        assert(l.items@.take(n as int) =~= l.items@);
        assert(out@ =~= spec_encode_list(*l));
    }
    out
}

/// Read the eight-byte length at `pos`.
fn take_u64(bytes: &Vec<u8>, pos: usize) -> (r: Result<(u64, usize), CodecError>)
    ensures
        r matches Ok(p) ==> pos + 8 <= bytes@.len() && p.1 == pos + 8 && u64_le(p.0)
            == bytes@.subrange(pos as int, pos as int + 8),
        r is Err ==> pos + 8 > bytes@.len(),
{
    if bytes.len() < 8 || pos > bytes.len() - 8 {
        return Err(CodecError::Truncated);
    }
    let b0 = bytes[pos] as u64;
    let b1 = bytes[pos + 1] as u64;
    let b2 = bytes[pos + 2] as u64;
    let b3 = bytes[pos + 3] as u64;
    let b4 = bytes[pos + 4] as u64;
    let b5 = bytes[pos + 5] as u64;
    let b6 = bytes[pos + 6] as u64;
    let b7 = bytes[pos + 7] as u64;
    let n = b0 | (b1 << 8) | (b2 << 16) | (b3 << 24) | (b4 << 32) | (b5 << 40) | (b6 << 48) | (
    b7 << 56);
    proof {
        assert((n & 0xff) == b0 && ((n >> 8) & 0xff) == b1 && ((n >> 16) & 0xff) == b2 && ((n
            >> 24) & 0xff) == b3 && ((n >> 32) & 0xff) == b4 && ((n >> 40) & 0xff) == b5 && ((n
            >> 48) & 0xff) == b6 && ((n >> 56) & 0xff) == b7) by (bit_vector)
            requires
                b0 < 256 && b1 < 256 && b2 < 256 && b3 < 256 && b4 < 256 && b5 < 256 && b6 < 256
                    && b7 < 256,
                n == b0 | (b1 << 8) | (b2 << 16) | (b3 << 24) | (b4 << 32) | (b5 << 40) | (b6
                    << 48) | (b7 << 56),
        ;
        assert(u64_le(n) =~= bytes@.subrange(pos as int, pos as int + 8));
    }
    Ok((n, pos + 8))
}

/// Read a length-prefixed byte string at `pos`.
fn take_field(bytes: &Vec<u8>, pos: usize) -> (r: Result<(Vec<u8>, usize), CodecError>)
    ensures
        r matches Ok(p) ==> pos <= p.1 <= bytes@.len() && spec_field(p.0@) == bytes@.subrange(
            pos as int,
            p.1 as int,
        ),
        r is Err ==> pos + 8 > bytes@.len() || (exists|n: u64|
            u64_le(n) == bytes@.subrange(pos as int, pos as int + 8) && pos + 8 + n
                > bytes@.len()),
{
    let (len, body_start) = match take_u64(bytes, pos) {
        Ok(p) => p,
        Err(e) => {
            return Err(e);
        },
    };
    if len > (bytes.len() - body_start) as u64 {
        proof {
            assert(u64_le(len) == bytes@.subrange(pos as int, pos as int + 8) && pos + 8 + len
                > bytes@.len());
        }
        return Err(CodecError::Truncated);
    }
    let len_usize = len as usize;
    let end = body_start + len_usize;
    let mut field: Vec<u8> = Vec::new();
    let mut j: usize = body_start;
    while j < end
        invariant
            body_start <= j <= end,
            end <= bytes@.len(),
            field@ == bytes@.subrange(body_start as int, j as int),
        decreases end - j,
    {
        field.push(bytes[j]);
        proof {
            assert(field@ =~= bytes@.subrange(body_start as int, j as int + 1));
        }
        j += 1;
    }
    proof {
        assert(spec_field(field@) =~= bytes@.subrange(pos as int, end as int));
    }
    Ok((field, end))
}

/// Read one item at `pos`: its name, optional namespace and contents. When
/// the caller knows (in ghost) that an item encoding stands at `pos`, the
/// parse is guaranteed to succeed and to consume exactly that encoding.
#[verifier::rlimit(60)]
fn take_item(
    bytes: &Vec<u8>,
    pos: usize,
    Ghost(expected): Ghost<Option<(KubeObject, Seq<u8>)>>,
) -> (r: Result<(KubeObject, usize), CodecError>)
    requires
        pos <= bytes@.len(),
        expected matches Some(exp) ==> bytes@.len() <= u64::MAX && bytes@.subrange(
            pos as int,
            bytes@.len() as int,
        ) == spec_encode_item(exp.0) + exp.1,
    ensures
        r matches Ok(p) ==> pos <= p.1 <= bytes@.len() && bytes@.subrange(pos as int, p.1 as int)
            == spec_encode_item(p.0),
        expected is Some ==> r is Ok,
        expected matches Some(exp) ==> (r matches Ok(p) ==> bytes@.subrange(
            p.1 as int,
            bytes@.len() as int,
        ) == exp.1),
{
    broadcast use vstd::utf8::encode_utf8_valid_utf8;

    let ghost has_expected: bool = expected is Some;
    let ghost blen: int = bytes@.len() as int;
    let ghost cur: KubeObject = (expected->0).0;
    let ghost tail_rest: Seq<u8> = (expected->0).1;
    let ghost name_enc: Seq<u8> = encode_utf8(cur.name@);
    let ghost ns_enc: Option<Seq<u8>> = match cur.namespace {
        Some(n) => Some(encode_utf8(n@)),
        None => None,
    };
    let ghost data_enc: Seq<u8> = cur.data@;
    proof {
        if has_expected {
            assert(bytes@.subrange(pos as int, blen) =~= spec_field(name_enc) + (spec_opt_field(
                ns_enc,
            ) + (spec_field(data_enc) + tail_rest)));
            lemma_field_at(
                bytes@,
                pos as int,
                name_enc,
                spec_opt_field(ns_enc) + (spec_field(data_enc) + tail_rest),
            );
        }
    }
    let (name_bytes, p1) = match take_field(bytes, pos) {
        Ok(p) => p,
        Err(e) => {
            proof {
                if has_expected {
                    if exists|n: u64|
                        u64_le(n) == bytes@.subrange(pos as int, pos as int + 8) && pos + 8 + n
                            > bytes@.len() {
                        let n0 = choose|n: u64|
                            u64_le(n) == bytes@.subrange(pos as int, pos as int + 8) && pos + 8 + n
                                > bytes@.len();
                        lemma_u64_le_inj(n0, name_enc.len() as u64);
                    }
                    assert(false);
                }
            }
            return Err(e);
        },
    };
    proof {
        if has_expected {
            assert(name_bytes.len() == name_bytes@.len());
            assert(name_bytes@.len() <= u64::MAX);
            lemma_field_pinned(bytes@, pos as int, name_enc, name_bytes@, p1 as int);
            assert(bytes@.subrange(p1 as int, blen) == spec_opt_field(ns_enc) + (spec_field(
                data_enc,
            ) + tail_rest));
            lemma_opt_at(bytes@, p1 as int, ns_enc, spec_field(data_enc) + tail_rest);
        }
    }
    let name = match string_from_utf8(name_bytes) {
        Ok(s) => s,
        Err(e) => {
            proof {
                if has_expected {
                    assert(valid_utf8(name_enc));
                    assert(false);
                }
            }
            return Err(e);
        },
    };
    if p1 >= bytes.len() {
        proof {
            if has_expected {
                assert(false);
            }
        }
        return Err(CodecError::Truncated);
    }
    let tag = bytes[p1];
    let (namespace, p2): (Option<String>, usize) = if tag == 0 {
        proof {
            if has_expected {
                assert(ns_enc is None);
                assert(bytes@.subrange(p1 as int + 1, blen) == spec_field(data_enc) + tail_rest);
                lemma_field_at(bytes@, p1 as int + 1, data_enc, tail_rest);
            }
        }
        (None, p1 + 1)
    } else if tag == 1 {
        proof {
            if has_expected {
                assert(ns_enc is Some);
                assert(bytes@.subrange(p1 as int + 1, blen) == spec_field(ns_enc->0) + (spec_field(
                    data_enc,
                ) + tail_rest));
                lemma_field_at(
                    bytes@,
                    p1 as int + 1,
                    ns_enc->0,
                    spec_field(data_enc) + tail_rest,
                );
            }
        }
        let (ns_bytes, q) = match take_field(bytes, p1 + 1) {
            Ok(p) => p,
            Err(e) => {
                proof {
                    if has_expected {
                        if exists|n: u64|
                            u64_le(n) == bytes@.subrange(p1 as int + 1, p1 as int + 9) && p1 + 1 + 8
                                + n > bytes@.len() {
                            let n0 = choose|n: u64|
                                u64_le(n) == bytes@.subrange(p1 as int + 1, p1 as int + 9) && p1 + 1
                                    + 8 + n > bytes@.len();
                            lemma_u64_le_inj(n0, ns_enc->0.len() as u64);
                        }
                        assert(false);
                    }
                }
                return Err(e);
            },
        };
        proof {
            if has_expected {
                assert(ns_bytes.len() == ns_bytes@.len());
                assert(ns_bytes@.len() <= u64::MAX);
                lemma_field_pinned(bytes@, p1 as int + 1, ns_enc->0, ns_bytes@, q as int);
                assert(bytes@.subrange(q as int, blen) == spec_field(data_enc) + tail_rest);
                lemma_field_at(bytes@, q as int, data_enc, tail_rest);
            }
        }
        let ns = match string_from_utf8(ns_bytes) {
            Ok(s) => s,
            Err(e) => {
                proof {
                    if has_expected {
                        assert(valid_utf8(ns_enc->0));
                        assert(false);
                    }
                }
                return Err(e);
            },
        };
        (Some(ns), q)
    } else {
        proof {
            if has_expected {
                assert(false);
            }
        }
        return Err(CodecError::BadTag);
    };
    let (data, p3) = match take_field(bytes, p2) {
        Ok(p) => p,
        Err(e) => {
            proof {
                if has_expected {
                    if exists|n: u64|
                        u64_le(n) == bytes@.subrange(p2 as int, p2 as int + 8) && p2 + 8 + n
                            > bytes@.len() {
                        let n0 = choose|n: u64|
                            u64_le(n) == bytes@.subrange(p2 as int, p2 as int + 8) && p2 + 8 + n
                                > bytes@.len();
                        lemma_u64_le_inj(n0, data_enc.len() as u64);
                    }
                    assert(false);
                }
            }
            return Err(e);
        },
    };
    proof {
        if has_expected {
            assert(data.len() == data@.len());
            assert(data@.len() <= u64::MAX);
            lemma_field_pinned(bytes@, p2 as int, data_enc, data@, p3 as int);
            assert(bytes@.subrange(p3 as int, blen) == tail_rest);
        }
    }
    let item = KubeObject { name, namespace, data };
    proof {
        assert(bytes@.subrange(pos as int, p3 as int) =~= spec_encode_item(item));
    }
    Ok((item, p3))
}

/// Decode a list payload: a value comes back exactly when the payload is
/// the canonical encoding of a list, and it is that list — every canonical
/// payload decodes, and a decoded value re-encodes to the input bit for bit.
#[verifier::rlimit(100)]
#[verifier::spinoff_prover]
pub fn decode_object_list(bytes: &Vec<u8>) -> (r: Result<KubeObjectList, CodecError>)
    ensures
        r matches Ok(list) ==> bytes@ == spec_encode_list(list),
        (exists|l: KubeObjectList| bytes@ == spec_encode_list(l)) ==> r is Ok,
{
    broadcast use vstd::utf8::encode_utf8_valid_utf8;

    let ghost encodable: bool = exists|l: KubeObjectList| bytes@ == spec_encode_list(l);
    let ghost enc: KubeObjectList = choose|l: KubeObjectList| bytes@ == spec_encode_list(l);
    let ghost blen: int = bytes@.len() as int;
    let ghost av_enc: Seq<u8> = encode_utf8(enc.api_version@);
    let ghost kd_enc: Seq<u8> = encode_utf8(enc.kind@);
    let ghost cnt_enc: u64 = enc.items@.len() as u64;
    let ghost items_enc: Seq<u8> = spec_encode_items(enc.items@);
    let total = bytes.len();
    proof {
        assert(bytes@.len() <= u64::MAX);
        if encodable {
            assert(bytes@.subrange(0, blen) =~= spec_field(av_enc) + (spec_field(kd_enc) + (
            u64_le(cnt_enc) + items_enc)));
            lemma_field_at(bytes@, 0, av_enc, spec_field(kd_enc) + (u64_le(cnt_enc) + items_enc));
        }
    }
    let (av_bytes, pos1) = match take_field(bytes, 0) {
        Ok(p) => p,
        Err(e) => {
            proof {
                if encodable {
                    if exists|n: u64|
                        u64_le(n) == bytes@.subrange(0, 8) && 8 + n > bytes@.len() {
                        let n0 = choose|n: u64|
                            u64_le(n) == bytes@.subrange(0, 8) && 8 + n > bytes@.len();
                        lemma_u64_le_inj(n0, av_enc.len() as u64);
                    }
                    assert(false);
                }
            }
            return Err(e);
        },
    };
    proof {
        if encodable {
            assert(av_bytes.len() == av_bytes@.len());
            assert(av_bytes@.len() <= u64::MAX);
            lemma_field_pinned(bytes@, 0, av_enc, av_bytes@, pos1 as int);
            assert(bytes@.subrange(pos1 as int, blen) == spec_field(kd_enc) + (u64_le(cnt_enc)
                + items_enc));
            lemma_field_at(bytes@, pos1 as int, kd_enc, u64_le(cnt_enc) + items_enc);
        }
    }
    let api_version = match string_from_utf8(av_bytes) {
        Ok(s) => s,
        Err(e) => {
            proof {
                if encodable {
                    assert(valid_utf8(av_enc));
                    assert(false);
                }
            }
            return Err(e);
        },
    };
    let (kind_bytes, pos2) = match take_field(bytes, pos1) {
        Ok(p) => p,
        Err(e) => {
            proof {
                if encodable {
                    if exists|n: u64|
                        u64_le(n) == bytes@.subrange(pos1 as int, pos1 as int + 8) && pos1 + 8 + n
                            > bytes@.len() {
                        let n0 = choose|n: u64|
                            u64_le(n) == bytes@.subrange(pos1 as int, pos1 as int + 8) && pos1 + 8
                                + n > bytes@.len();
                        lemma_u64_le_inj(n0, kd_enc.len() as u64);
                    }
                    assert(false);
                }
            }
            return Err(e);
        },
    };
    proof {
        if encodable {
            assert(kind_bytes.len() == kind_bytes@.len());
            assert(kind_bytes@.len() <= u64::MAX);
            lemma_field_pinned(bytes@, pos1 as int, kd_enc, kind_bytes@, pos2 as int);
            assert(bytes@.subrange(pos2 as int, blen) == u64_le(cnt_enc) + items_enc);
            lemma_u64_at(bytes@, pos2 as int, cnt_enc, items_enc);
            lemma_items_min_len(enc.items@);
        }
    }
    let kind = match string_from_utf8(kind_bytes) {
        Ok(s) => s,
        Err(e) => {
            proof {
                if encodable {
                    assert(valid_utf8(kd_enc));
                    assert(false);
                }
            }
            return Err(e);
        },
    };
    let (count, pos3) = match take_u64(bytes, pos2) {
        Ok(p) => p,
        Err(e) => {
            proof {
                if encodable {
                    assert(false);
                }
            }
            return Err(e);
        },
    };
    proof {
        if encodable {
            lemma_u64_le_inj(count, cnt_enc);
            assert(enc.items@.len() <= items_enc.len() <= blen);
            assert(count as int == enc.items@.len());
            assert(bytes@.subrange(pos3 as int, blen) == items_enc);
        }
    }
    if count > (bytes.len() - pos3) as u64 {
        // Every item takes at least one byte, so the count cannot exceed
        // what is left.
        proof {
            if encodable {
                assert(false);
            }
        }
        return Err(CodecError::Truncated);
    }
    let count_usize = count as usize;
    let mut items: Vec<KubeObject> = Vec::new();
    let mut pos: usize = pos3;
    let mut k: usize = 0;
    proof {
        assert(bytes@.subrange(pos3 as int, pos3 as int) =~= spec_encode_items(items@));
        if encodable {
            assert(enc.items@.skip(0) =~= enc.items@);
        }
    }
    while k < count_usize
        invariant
            k <= count_usize,
            pos <= bytes@.len(),
            items@.len() == k,
            bytes@.subrange(pos3 as int, pos as int) == spec_encode_items(items@),
            pos3 <= pos,
            blen == bytes@.len(),
            bytes@.len() <= u64::MAX,
            encodable == exists|l: KubeObjectList| bytes@ == spec_encode_list(l),
            encodable ==> {
                &&& bytes@ == spec_encode_list(enc)
                &&& count_usize == enc.items@.len()
                &&& bytes@.subrange(pos as int, blen) == spec_encode_items(
                    enc.items@.skip(k as int),
                )
            },
        decreases count_usize - k,
    {
        let ghost items_before = items@;
        let ghost pos_before = pos as int;
        let ghost expected: Option<(KubeObject, Seq<u8>)> = if encodable {
            Some(
                (
                    enc.items@[k as int],
                    spec_encode_items(enc.items@.skip(k as int + 1)),
                ),
            )
        } else {
            None
        };
        proof {
            if encodable {
                lemma_items_front(enc.items@.skip(k as int));
                assert(enc.items@.skip(k as int)[0] == enc.items@[k as int]);
                assert(enc.items@.skip(k as int).drop_first() =~= enc.items@.skip(k as int + 1));
                assert(bytes@.subrange(pos as int, blen) == spec_encode_item((expected->0).0)
                    + (expected->0).1);
            }
        }
        let (item, p3) = match take_item(bytes, pos, Ghost(expected)) {
            Ok(p) => p,
            Err(e) => {
                proof {
                    if encodable {
                        assert(false);
                    }
                }
                return Err(e);
            },
        };
        items.push(item);
        pos = p3;
        proof {
            assert(items@.drop_last() =~= items_before);
            assert(bytes@.subrange(pos3 as int, pos as int) =~= spec_encode_items(items@));
        }
        k += 1;
    }
    if pos != total {
        proof {
            if encodable {
                assert(enc.items@.skip(count_usize as int) =~= Seq::<KubeObject>::empty());
                assert(bytes@.subrange(pos as int, blen).len() == 0);
                assert(false);
            }
        }
        return Err(CodecError::TrailingBytes);
    }
    let list = KubeObjectList { api_version, kind, items };
    proof {
        assert(bytes@ =~= spec_encode_list(list));
    }
    Ok(list)
}

} // verus!
