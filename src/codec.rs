//! The byte layout of a record: its title, then its URL, each as a
//! little-endian `u64` byte length followed by the UTF-8 bytes.

use vstd::prelude::*;
use vstd::utf8::*;

verus! {

broadcast use {encode_utf8_valid_utf8, encode_utf8_decode_utf8};

/// A stored record: a titled link.
#[derive(Debug, Clone, PartialEq, Eq)]
pub struct Image {
    pub title: String,
    pub url: String,
}

impl View for Image {
    type V = (Seq<char>, Seq<char>);

    open spec fn view(&self) -> (Seq<char>, Seq<char>) {
        (self.title@, self.url@)
    }
}

/// The eight little-endian bytes of `n`.
pub open spec fn le_bytes(n: u64) -> Seq<u8> {
    seq![
        n as u8,
        (n >> 8u64) as u8,
        (n >> 16u64) as u8,
        (n >> 24u64) as u8,
        (n >> 32u64) as u8,
        (n >> 40u64) as u8,
        (n >> 48u64) as u8,
        (n >> 56u64) as u8,
    ]
}

/// The `u64` whose little-endian bytes are `s[0..8]`.
pub open spec fn le_value(s: Seq<u8>) -> u64 {
    (s[0] as u64) | ((s[1] as u64) << 8u64) | ((s[2] as u64) << 16u64) | ((s[3] as u64) << 24u64)
        | ((s[4] as u64) << 32u64) | ((s[5] as u64) << 40u64) | ((s[6] as u64) << 48u64) | ((
    s[7] as u64) << 56u64)
}

/// One string field: its byte length, then its UTF-8 bytes.
pub open spec fn field_bytes(s: Seq<char>) -> Seq<u8> {
    le_bytes(encode_utf8(s).len() as u64) + encode_utf8(s)
}

/// The encoding of a record with the given title and URL.
pub open spec fn encoding(r: (Seq<char>, Seq<char>)) -> Seq<u8> {
    field_bytes(r.0) + field_bytes(r.1)
}

/// Whether a string's UTF-8 length can be written as a `u64` prefix.
pub open spec fn encodable(r: (Seq<char>, Seq<char>)) -> bool {
    encode_utf8(r.0).len() <= u64::MAX && encode_utf8(r.1).len() <= u64::MAX
}

/// The string field that starts at `pos` in `b`, with the position after it;
/// `None` when the prefix or the body runs past the end, or the body is not UTF-8.
pub open spec fn field_at(b: Seq<u8>, pos: int) -> Option<(Seq<char>, int)> {
    if pos < 0 || pos + 8 > b.len() {
        None
    } else {
        let n = le_value(b.subrange(pos, pos + 8)) as int;
        let end = pos + 8 + n;
        if end > b.len() {
            None
        } else if !valid_utf8(b.subrange(pos + 8, end)) {
            None
        } else {
            Some((decode_utf8(b.subrange(pos + 8, end)), end))
        }
    }
}

/// The record that `b` begins with: a title field, then a URL field. Bytes
/// after the URL are ignored.
pub open spec fn decoded(b: Seq<u8>) -> Option<(Seq<char>, Seq<char>)> {
    match field_at(b, 0) {
        None => None,
        Some((title, p)) => match field_at(b, p) {
            None => None,
            Some((url, _)) => Some((title, url)),
        },
    }
}

proof fn lemma_le_round_trip(n: u64)
    ensures
        le_value(le_bytes(n)) == n,
{
    let s = le_bytes(n);
    assert(s[0] == n as u8 && s[1] == (n >> 8u64) as u8 && s[2] == (n >> 16u64) as u8 && s[3] == (
    n >> 24u64) as u8 && s[4] == (n >> 32u64) as u8 && s[5] == (n >> 40u64) as u8 && s[6] == (n
        >> 48u64) as u8 && s[7] == (n >> 56u64) as u8);
    assert(((n as u8) as u64) | ((((n >> 8u64) as u8) as u64) << 8u64) | ((((n >> 16u64) as u8)
        as u64) << 16u64) | ((((n >> 24u64) as u8) as u64) << 24u64) | ((((n >> 32u64) as u8)
        as u64) << 32u64) | ((((n >> 40u64) as u8) as u64) << 40u64) | ((((n >> 48u64) as u8)
        as u64) << 48u64) | ((((n >> 56u64) as u8) as u64) << 56u64) == n) by (bit_vector);
}

proof fn lemma_field_round_trip(s: Seq<char>, prefix: Seq<u8>, rest: Seq<u8>)
    requires
        encode_utf8(s).len() <= u64::MAX,
    ensures
        field_at(prefix + field_bytes(s) + rest, prefix.len() as int) == Some(
            (s, (prefix.len() + field_bytes(s).len()) as int),
        ),
{
    let e = encode_utf8(s);
    let b = prefix + field_bytes(s) + rest;
    let pos = prefix.len() as int;
    lemma_le_round_trip(e.len() as u64);
    assert(b.subrange(pos, pos + 8) =~= le_bytes(e.len() as u64));
    assert(b.subrange(pos + 8, pos + 8 + e.len()) =~= e);
}

/// Decoding an encoded record gives it back, whatever bytes follow it.
pub proof fn lemma_round_trip(r: (Seq<char>, Seq<char>), rest: Seq<u8>)
    requires
        encodable(r),
    ensures
        decoded(encoding(r) + rest) == Some(r),
{
    let b = encoding(r) + rest;
    lemma_field_round_trip(r.0, Seq::empty(), field_bytes(r.1) + rest);
    assert(b =~= Seq::<u8>::empty() + field_bytes(r.0) + (field_bytes(r.1) + rest));
    lemma_field_round_trip(r.1, field_bytes(r.0), rest);
    assert(b =~= field_bytes(r.0) + field_bytes(r.1) + rest);
}

/// Why some bytes are not a record: a length prefix or a string runs past
/// the end, or a string is not UTF-8.
#[derive(Debug, PartialEq, Eq)]
pub struct DecodeError;

/// Relies on `String::from_utf8`: it succeeds exactly on valid UTF-8 and then
/// holds the characters that the bytes encode.
#[verifier::external_body]
fn string_from_utf8(bytes: Vec<u8>) -> (r: Option<String>)
    ensures
        r is Some <==> valid_utf8(bytes@),
        r matches Some(s) ==> s@ == decode_utf8(bytes@),
{
    String::from_utf8(bytes).ok()
}

fn push_le_bytes(out: &mut Vec<u8>, n: u64)
    ensures
        final(out)@ == old(out)@ + le_bytes(n),
{
    out.push(n as u8);
    out.push((n >> 8u64) as u8);
    out.push((n >> 16u64) as u8);
    out.push((n >> 24u64) as u8);
    out.push((n >> 32u64) as u8);
    out.push((n >> 40u64) as u8);
    out.push((n >> 48u64) as u8);
    out.push((n >> 56u64) as u8);
    assert(out@ =~= old(out)@ + le_bytes(n));
}

fn push_field(out: &mut Vec<u8>, s: &str)
    ensures
        final(out)@ == old(out)@ + field_bytes(s@),
{
    let bytes = s.as_bytes();
    push_le_bytes(out, bytes.len() as u64);
    let ghost start = out@;
    let mut i: usize = 0;
    while i < bytes.len()
        invariant
            i <= bytes@.len(),
            bytes@ == encode_utf8(s@),
            start == old(out)@ + le_bytes(bytes@.len() as u64),
            out@ == start + bytes@.subrange(0, i as int),
        decreases bytes@.len() - i,
    {
        out.push(bytes[i]);
        i = i + 1;
        assert(out@ =~= start + bytes@.subrange(0, i as int));
    }
    assert(bytes@.subrange(0, i as int) =~= bytes@);
    assert(out@ =~= old(out)@ + field_bytes(s@));
}

fn read_u64_le(b: &[u8], pos: usize) -> (r: u64)
    requires
        pos + 8 <= b@.len(),
    ensures
        r == le_value(b@.subrange(pos as int, pos + 8)),
{
    (b[pos] as u64) | ((b[pos + 1] as u64) << 8u64) | ((b[pos + 2] as u64) << 16u64) | ((b[pos
        + 3] as u64) << 24u64) | ((b[pos + 4] as u64) << 32u64) | ((b[pos + 5] as u64) << 40u64)
        | ((b[pos + 6] as u64) << 48u64) | ((b[pos + 7] as u64) << 56u64)
}

fn read_field(b: &[u8], pos: usize) -> (r: Option<(String, usize)>)
    requires
        pos <= b@.len(),
    ensures
        match r {
            Some((s, p)) => field_at(b@, pos as int) == Some((s@, p as int)),
            None => field_at(b@, pos as int) is None,
        },
{
    if b.len() - pos < 8 {
        return None;
    }
    let n = read_u64_le(b, pos);
    let start = pos + 8;
    if n > (b.len() - start) as u64 {
        return None;
    }
    let end = start + n as usize;
    let mut body: Vec<u8> = Vec::new();
    let mut i: usize = start;
    while i < end
        invariant
            start <= i <= end <= b@.len(),
            body@ == b@.subrange(start as int, i as int),
        decreases end - i,
    {
        body.push(b[i]);
        i = i + 1;
        assert(body@ =~= b@.subrange(start as int, i as int));
    }
    match string_from_utf8(body) {
        Some(s) => Some((s, end)),
        None => None,
    }
}

impl Image {
    /// The record's bytes: its title field, then its URL field.
    pub fn encode(&self) -> (r: Vec<u8>)
        ensures
            r@ == encoding(self@),
    {
        let mut out: Vec<u8> = Vec::new();
        push_field(&mut out, self.title.as_str());
        push_field(&mut out, self.url.as_str());
        assert(out@ =~= encoding(self@));
        out
    }

    /// The record that `bytes` begins with; bytes after it are ignored.
    pub fn decode(bytes: &[u8]) -> (r: Result<Image, DecodeError>)
        ensures
            r is Ok <==> decoded(bytes@) is Some,
            r matches Ok(rec) ==> decoded(bytes@) == Some(rec@),
    {
        match read_field(bytes, 0) {
            None => Err(DecodeError),
            Some((title, p)) => match read_field(bytes, p) {
                None => Err(DecodeError),
                Some((url, _)) => Ok(Image { title, url }),
            },
        }
    }
}

} // verus!
