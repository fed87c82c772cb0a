//! The MD5 digest of a string's UTF-8 bytes, as uppercase hexadecimal text.

use crate::hex::{
    is_upper_hex_char, lemma_upper_hex_format, lemma_upper_hex_injective, upper_hex,
    upper_hex_of_bytes,
};
use md5::Digest;
use vstd::prelude::*;
use vstd::utf8::encode_utf8;

verus! {

/// The 16-byte MD5 digest of `data`.
pub uninterp spec fn md5_of(data: Seq<u8>) -> Seq<u8>;

/// What `md5_upper_hex` returns for a string whose characters are `s`.
pub open spec fn md5_upper_hex_spec(s: Seq<char>) -> Seq<char> {
    upper_hex(md5_of(encode_utf8(s)))
}

/// Relies on `md5::Md5::digest` (the `Digest` trait of the `md-5` crate): the
/// MD5 digest of `data`, whose output size is 16 bytes.
#[verifier::external_body]
fn md5_digest(data: &[u8]) -> (r: [u8; 16])
    ensures
        r@ == md5_of(data@),
{
    md5::Md5::digest(data).into()
}

/// The MD5 digest of the UTF-8 bytes of `input`, as 32 uppercase hexadecimal
/// characters.
pub fn md5_upper_hex(input: String) -> (r: String)
    ensures
        r@ == md5_upper_hex_spec(input@),
        r@.len() == 32,
        forall|i: int| 0 <= i < r@.len() ==> is_upper_hex_char(#[trigger] r@[i]),
{
    let digest = md5_digest(input.as_str().as_bytes());
    let r = upper_hex_of_bytes(&digest);
    proof {
        lemma_upper_hex_format(digest@);
    }
    r
}

/// Determinism: the same string always yields the same digest text.
pub proof fn lemma_md5_upper_hex_deterministic(s1: Seq<char>, s2: Seq<char>)
    requires
        s1 == s2,
    ensures
        md5_upper_hex_spec(s1) == md5_upper_hex_spec(s2),
{
}

/// Two strings give the same text only when the MD5 digests of their UTF-8
/// bytes are equal: the rendering adds no collisions of its own.
pub proof fn lemma_md5_upper_hex_equal_only_on_equal_digests(s1: Seq<char>, s2: Seq<char>)
    requires
        md5_upper_hex_spec(s1) == md5_upper_hex_spec(s2),
    ensures
        md5_of(encode_utf8(s1)) == md5_of(encode_utf8(s2)),
{
    lemma_upper_hex_injective(md5_of(encode_utf8(s1)), md5_of(encode_utf8(s2)));
}

} // verus!
