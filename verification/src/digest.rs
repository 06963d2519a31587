//! The SHA-256 digest of a text and the last character of its hexadecimal form.

use vstd::prelude::*;
use vstd::string::StringSliceAdditionalSpecFns;
use vstd::utf8::encode_utf8;
use sha2::{Digest, Sha256};

verus! {

/// The SHA-256 digest of a byte string.
pub uninterp spec fn sha256(bytes: Seq<u8>) -> Seq<u8>;

/// `sha2::Sha256::digest` feeds the bytes to a fresh hasher and finalizes it; the
/// digest depends on the bytes alone and is named `sha256`.
#[verifier::external_body]
fn sha256_digest(bytes: &[u8]) -> (digest: Vec<u8>)
    ensures
        digest@ == sha256(bytes@),
{
    Sha256::digest(bytes).to_vec()
}

/// The lower-case hexadecimal digit of a value below sixteen.
pub open spec fn hex_digit(nibble: u8) -> char {
    if nibble < 10 {
        ('0' as u8 + nibble) as char
    } else {
        ('a' as u8 + (nibble - 10)) as char
    }
}

/// The lower-case hexadecimal form of a byte string, two digits per byte.
pub open spec fn lower_hex(bytes: Seq<u8>) -> Seq<char>
    decreases bytes.len(),
{
    if bytes.len() == 0 {
        Seq::empty()
    } else {
        lower_hex(bytes.drop_last()).push(hex_digit(bytes.last() >> 4)).push(
            hex_digit(bytes.last() & 0x0f),
        )
    }
}

/// The hexadecimal form of the digest ends in the character `a`.
pub open spec fn hex_ends_in_a(digest: Seq<u8>) -> bool {
    lower_hex(digest).len() > 0 && lower_hex(digest).last() == 'a'
}

/// The hexadecimal form ends in `a` exactly when there is a last byte and its low
/// four bits are ten.
pub proof fn lemma_hex_ends_in_a(digest: Seq<u8>)
    ensures
        hex_ends_in_a(digest) <==> digest.len() > 0 && digest.last() & 0x0f == 10,
{
    if digest.len() > 0 {
        let byte = digest.last();
        let low = byte & 0x0f;
        assert(low < 16) by (bit_vector)
            requires
                low == byte & 0x0f,
        ;
        assert(lower_hex(digest).last() == hex_digit(low));
    }
}

/// Computes the SHA-256 digest of the text's UTF-8 bytes.
pub fn digest_of(text: &str) -> (digest: Vec<u8>)
    ensures
        digest@ == sha256(encode_utf8(text@)),
{
    sha256_digest(text.as_bytes())
}

/// Tells whether the hexadecimal form of the digest ends in `a`.
pub fn ends_in_a(digest: &Vec<u8>) -> (b: bool)
    ensures
        b == hex_ends_in_a(digest@),
{
    proof {
        lemma_hex_ends_in_a(digest@);
    }
    let n = digest.len();
    n > 0 && digest[n - 1] & 0x0f == 10
}

} // verus!
