//! SHA-256 digests and their lowercase hexadecimal text; identifiers made
//! from a prefix and the first 24 hex digits of a digest.
use vstd::prelude::*;
use sha2::Digest;
use crate::text::{owned, push_chars, push_str, slice_chars};

verus! {

/// What `sha2::Sha256` computes for a sequence of bytes.
pub uninterp spec fn sha256_of(bytes: Seq<u8>) -> Seq<u8>;

/// SHA-256 of the bytes (`sha2::Sha256::digest`): 32 bytes, named by
/// `sha256_of`, so the same bytes always give the same digest.
#[verifier::external_body]
pub fn sha256(bytes: &[u8]) -> (r: Vec<u8>)
    ensures
        r@ == sha256_of(bytes@),
        r@.len() == 32,
{
    sha2::Sha256::digest(bytes).to_vec()
}

pub open spec fn hex_digit(d: u8) -> char {
    if d < 10 {
        ((d + 48) as u32) as char
    } else {
        ((d + 87) as u32) as char
    }
}

/// Two lowercase hex digits per byte.
pub open spec fn hex_spec(v: Seq<u8>) -> Seq<char>
    decreases v.len(),
{
    if v.len() == 0 {
        Seq::empty()
    } else {
        hex_spec(v.drop_last()) + seq![hex_digit(v.last() / 16), hex_digit(v.last() % 16)]
    }
}

proof fn lemma_hex_len(v: Seq<u8>)
    ensures
        hex_spec(v).len() == 2 * v.len(),
    decreases v.len(),
{
    if v.len() > 0 {
        lemma_hex_len(v.drop_last());
    }
}

fn hex_digit_exec(d: u8) -> (r: char)
    requires
        d < 16,
    ensures
        r == hex_digit(d),
{
    if d < 10 {
        (d + 48) as char
    } else {
        (d + 87) as char
    }
}

fn hex_chars(v: &[u8]) -> (r: Vec<char>)
    ensures
        r@ == hex_spec(v@),
{
    let mut r: Vec<char> = Vec::new();
    for i in 0..v.len()
        invariant
            r@ == hex_spec(v@.take(i as int)),
    {
        assert(v@.take(i + 1).drop_last() == v@.take(i as int));
        assert(v@.take(i + 1).last() == v@[i as int]);
        let b = v[i];
        r.push(hex_digit_exec(b / 16));
        r.push(hex_digit_exec(b % 16));
    }
    assert(v@.take(v@.len() as int) == v@);
    r
}

/// The lowercase hexadecimal text of the bytes.
pub fn hex(v: &[u8]) -> (r: String)
    ensures
        r@ == hex_spec(v@),
{
    let c = hex_chars(v);
    crate::text::string_of(c.as_slice())
}

/// `PREFIX-` and the first 24 hex digits of the SHA-256 of `v`.
pub open spec fn id_spec(prefix: Seq<char>, v: Seq<u8>) -> Seq<char> {
    prefix + "-"@ + hex_spec(sha256_of(v)).take(24)
}

/// An identifier derived from the bytes: the same bytes always give the same id.
pub fn id(prefix: &str, v: &[u8]) -> (r: String)
    ensures
        r@ == id_spec(prefix@, v@),
{
    let d = sha256(v);
    let h = hex_chars(d.as_slice());
    proof {
        lemma_hex_len(d@);
    }
    let head = slice_chars(h.as_slice(), 0, 24);
    let mut r = owned(prefix);
    push_str(&mut r, "-");
    push_chars(&mut r, head.as_slice());
    r
}

} // verus!
