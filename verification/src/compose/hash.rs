//! Hashes of service definitions.
use md5::{Digest, Md5};
use vstd::prelude::*;
use vstd::string::*;
use vstd::utf8::*;

verus! {

/// The MD5 digest of some bytes.
pub uninterp spec fn md5_of(bytes: Seq<u8>) -> Seq<u8>;

/// The MD5 digest of some bytes, which is sixteen bytes long; calls
/// `Md5::digest`. Which bytes these are follows from the input alone.
#[verifier::external_body]
fn md5_digest(bytes: &[u8]) -> (r: Vec<u8>)
    ensures
        r@ == md5_of(bytes@),
        r@.len() == 16,
{
    Md5::digest(bytes).to_vec()
}

/// The hexadecimal digit of a number below sixteen, in lower case.
pub open spec fn hex_digit(n: int) -> char {
    "0123456789abcdef"@[n]
}

/// Bytes in hexadecimal, two digits each.
pub open spec fn hex_text(bytes: Seq<u8>) -> Seq<char>
    decreases bytes.len(),
{
    if bytes.len() == 0 {
        Seq::empty()
    } else {
        hex_text(bytes.drop_last()).push(hex_digit(bytes.last() as int / 16)).push(
            hex_digit(bytes.last() as int % 16),
        )
    }
}

/// Writes bytes in hexadecimal; calls `hex::encode`, which writes each byte as
/// two digits in lower case, the higher one first.
#[verifier::external_body]
fn hex_encode(bytes: &[u8]) -> (r: String)
    ensures
        r@ == hex_text(bytes@),
{
    hex::encode(bytes)
}

/// The hash of a definition: the first half of its digest in hexadecimal.
pub open spec fn spec_hash(definition: Seq<char>) -> Seq<char> {
    hex_text(md5_of(encode_utf8(definition)).take(8))
}

/// The hash of a service, given its definition in JSON.
pub fn service_spec_hash(definition: &str) -> (r: String)
    ensures
        r@ == spec_hash(definition@),
        r@.len() == 16,
{
    let digest = md5_digest(definition.as_bytes());
    let (head, _tail) = digest.as_slice().split_at(8);
    proof {
        assert(head@ =~= md5_of(encode_utf8(definition@)).take(8));
        lemma_hex_length(head@);
    }
    hex_encode(head)
}

/// Hexadecimal takes two characters for each byte.
pub proof fn lemma_hex_length(bytes: Seq<u8>)
    ensures
        hex_text(bytes).len() == 2 * bytes.len(),
    decreases bytes.len(),
{
    if bytes.len() > 0 {
        lemma_hex_length(bytes.drop_last());
    }
}

} // verus!
