//! The content fingerprint: a SHA-256 digest, in lowercase hex, of the UTF-8
//! bytes of the content followed by those of each extra part, with no
//! separator between them.

use vstd::prelude::*;
use vstd::utf8::encode_utf8;
use sha2::{Digest, Sha256};
use crate::text::string_of;

verus! {

/// The SHA-256 digest of a byte sequence.
pub uninterp spec fn sha256_of(bytes: Seq<u8>) -> Seq<u8>;

/// Relies on `sha2::Sha256::digest`: the SHA-256 digest of the bytes, whose
/// output size is 32 bytes.
#[verifier::external_body]
fn sha256(bytes: &Vec<u8>) -> (r: Vec<u8>)
    ensures
        r@ == sha256_of(bytes@),
        r@.len() == 32,
{
    Sha256::digest(bytes.as_slice()).to_vec()
}

/// The lowercase hex digit of a value below 16.
pub open spec fn hex_digit(v: u8) -> char {
    if v < 10 {
        (v + 48) as char
    } else {
        (v + 87) as char
    }
}

/// Two lowercase hex digits per byte, high nibble first.
pub open spec fn hex_of(b: Seq<u8>) -> Seq<char>
    decreases b.len(),
{
    if b.len() == 0 {
        Seq::empty()
    } else {
        hex_of(b.drop_last()) + seq![hex_digit(b.last() / 16), hex_digit(b.last() % 16)]
    }
}

/// The UTF-8 bytes of each part, one after the other.
pub open spec fn utf8_concat(parts: Seq<Seq<char>>) -> Seq<u8>
    decreases parts.len(),
{
    if parts.len() == 0 {
        Seq::empty()
    } else {
        utf8_concat(parts.drop_last()) + encode_utf8(parts.last())
    }
}

/// The fingerprint of `content` with the extra parts `extra`.
pub open spec fn content_hash_of(content: Seq<char>, extra: Seq<Seq<char>>) -> Seq<char> {
    hex_of(sha256_of(encode_utf8(content) + utf8_concat(extra)))
}

fn hex_char(v: u8) -> (c: char)
    requires
        v < 16,
    ensures
        c == hex_digit(v),
{
    if v < 10 {
        (v + 48) as char
    } else {
        (v + 87) as char
    }
}

/// Lowercase hex text of the bytes.
pub fn to_hex(b: &Vec<u8>) -> (r: String)
    ensures
        r@ == hex_of(b@),
        r@.len() == 2 * b@.len(),
{
    let mut out: Vec<char> = Vec::new();
    let mut i: usize = 0;
    while i < b.len()
        invariant
            i <= b@.len(),
            out@ == hex_of(b@.subrange(0, i as int)),
            out@.len() == 2 * i,
        decreases b@.len() - i,
    {
        let v = b[i];
        out.push(hex_char(v / 16));
        out.push(hex_char(v % 16));
        assert(b@.subrange(0, i + 1).drop_last() =~= b@.subrange(0, i as int));
        assert(out@ =~= hex_of(b@.subrange(0, i + 1)));
        i = i + 1;
    }
    assert(b@.subrange(0, b@.len() as int) =~= b@);
    string_of(&out)
}

fn push_bytes(out: &mut Vec<u8>, s: &str)
    ensures
        final(out)@ == old(out)@ + encode_utf8(s@),
{
    let bytes = s.as_bytes();
    let ghost start = out@;
    let mut i: usize = 0;
    while i < bytes.len()
        invariant
            i <= bytes@.len(),
            bytes@ == encode_utf8(s@),
            out@ == start + bytes@.subrange(0, i as int),
        decreases bytes@.len() - i,
    {
        out.push(bytes[i]);
        assert(bytes@.subrange(0, i + 1) =~= bytes@.subrange(0, i as int).push(bytes@[i as int]));
        i = i + 1;
    }
    assert(bytes@.subrange(0, bytes@.len() as int) =~= bytes@);
}

/// The fingerprint of `content` followed by the parts in `extra_parts`: the
/// lowercase hex SHA-256 digest of their UTF-8 bytes, concatenated with no
/// separator. Always 64 characters.
pub fn content_hash(content: &str, extra_parts: &Vec<String>) -> (r: String)
    ensures
        r@ == content_hash_of(content@, crate::models::texts(extra_parts@)),
        r@.len() == 64,
{
    let mut bytes: Vec<u8> = Vec::new();
    push_bytes(&mut bytes, content);
    let ghost head = bytes@;
    let mut i: usize = 0;
    while i < extra_parts.len()
        invariant
            i <= extra_parts@.len(),
            head == encode_utf8(content@),
            bytes@ == head + utf8_concat(crate::models::texts(extra_parts@.subrange(0, i as int))),
        decreases extra_parts@.len() - i,
    {
        let ghost before = bytes@;
        push_bytes(&mut bytes, extra_parts[i].as_str());
        proof {
            let p = crate::models::texts(extra_parts@.subrange(0, i + 1));
            assert(p.drop_last() =~= crate::models::texts(extra_parts@.subrange(0, i as int)));
            assert(p.last() == extra_parts@[i as int]@);
            assert(bytes@ =~= head + utf8_concat(p));
        }
        i = i + 1;
    }
    assert(extra_parts@.subrange(0, extra_parts@.len() as int) =~= extra_parts@);
    let digest = sha256(&bytes);
    to_hex(&digest)
}

} // verus!
