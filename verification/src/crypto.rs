//! Digests, hexadecimal, randomness, and comparison in constant time.

use vstd::prelude::*;

use crate::error::{fault, Error};
use crate::text::{is_digest, is_digit, is_lower_hex};

verus! {

/// The hexadecimal digit of a value below sixteen, in lower case.
pub open spec fn hex_digit(n: int) -> char {
    if n < 10 {
        (48 + n) as char
    } else {
        (87 + n) as char
    }
}

/// The lowercase hexadecimal text of some bytes, two digits each, the high half first.
pub open spec fn hex_of(bytes: Seq<u8>) -> Seq<char> {
    Seq::new(
        bytes.len() * 2,
        |i: int|
            if i % 2 == 0 {
                hex_digit(bytes[i / 2] as int / 16)
            } else {
                hex_digit(bytes[i / 2] as int % 16)
            },
    )
}

/// `hex::encode`: two lowercase hexadecimal digits for each byte, the high half first.
#[verifier::external_body]
pub(crate) fn hex_encode(bytes: &[u8]) -> (r: String)
    ensures
        r@ == hex_of(bytes@),
{
    hex::encode(bytes)
}

/// Whether a character is a hexadecimal digit of either case.
pub open spec fn is_hex(c: char) -> bool {
    is_digit(c) || ('a' <= c && c <= 'f') || ('A' <= c && c <= 'F')
}

/// The value of a hexadecimal digit.
pub open spec fn hex_value(c: char) -> int {
    if is_digit(c) {
        c as int - 48
    } else if 'a' <= c && c <= 'f' {
        c as int - 87
    } else {
        c as int - 55
    }
}

/// Whether a text is hexadecimal: an even number of hexadecimal digits.
pub open spec fn is_hex_text(s: Seq<char>) -> bool {
    s.len() % 2 == 0 && forall|i: int| 0 <= i < s.len() ==> is_hex(#[trigger] s[i])
}

/// The bytes a hexadecimal text stands for.
pub open spec fn bytes_of_hex(s: Seq<char>) -> Seq<u8> {
    Seq::new(
        s.len() / 2,
        |i: int| (hex_value(s[2 * i]) * 16 + hex_value(s[2 * i + 1])) as u8,
    )
}

/// What `hex::FromHexError` says of a text that is not hexadecimal.
pub uninterp spec fn hex_complaint(s: Seq<char>) -> Seq<char>;

/// `hex::decode`: the bytes of an even number of hexadecimal digits of either case, and otherwise
/// an error. What the error says is a function of the text alone.
#[verifier::external_body]
pub(crate) fn hex_decode(s: &str) -> (r: Result<Vec<u8>, String>)
    ensures
        match r {
            Ok(bytes) => is_hex_text(s@) && bytes@ == bytes_of_hex(s@),
            Err(e) => !is_hex_text(s@) && e@ == hex_complaint(s@),
        },
{
    hex::decode(s).map_err(|e| e.to_string())
}

/// The SHA-256 digest of some bytes.
pub uninterp spec fn sha256_of(bytes: Seq<u8>) -> Seq<u8>;

/// `sha2::Sha256::digest`: the SHA-256 digest, thirty-two bytes, a function of the bytes alone.
#[verifier::external_body]
pub(crate) fn sha256(bytes: &[u8]) -> (r: Vec<u8>)
    ensures
        r@ == sha256_of(bytes@),
        r@.len() == 32,
{
    <sha2::Sha256 as sha2::Digest>::digest(bytes).to_vec()
}

/// The SHA-256 digest of some bytes, in lowercase hexadecimal.
pub open spec fn sha256_hex_of(bytes: Seq<u8>) -> Seq<char> {
    hex_of(sha256_of(bytes))
}

/// The text of thirty-two bytes is a digest.
pub proof fn lemma_hex_is_digest(bytes: Seq<u8>)
    requires
        bytes.len() == 32,
    ensures
        is_digest(hex_of(bytes)),
{
    let s = hex_of(bytes);
    assert forall|i: int| 0 <= i < s.len() implies is_lower_hex(#[trigger] s[i]) by {
        let b = bytes[i / 2] as int;
        assert(0 <= b / 16 < 16 && 0 <= b % 16 < 16);
    }
}

/// The SHA-256 digest of some bytes, in lowercase hexadecimal.
pub fn sha256_hex(bytes: &[u8]) -> (r: String)
    ensures
        r@ == sha256_hex_of(bytes@),
        is_digest(r@),
{
    let digest = sha256(bytes);
    proof {
        lemma_hex_is_digest(digest@);
    }
    hex_encode(digest.as_slice())
}

/// What is encoded in hexadecimal decodes to itself.
pub proof fn lemma_hex_round_trip(bytes: Seq<u8>)
    ensures
        is_hex_text(hex_of(bytes)),
        bytes_of_hex(hex_of(bytes)) == bytes,
{
    let s = hex_of(bytes);
    assert forall|i: int| 0 <= i < s.len() implies is_hex(#[trigger] s[i]) by {
        let b = bytes[i / 2] as int;
        assert(0 <= b / 16 < 16 && 0 <= b % 16 < 16);
    }
    assert forall|i: int| 0 <= i < bytes.len() implies bytes_of_hex(s)[i] == bytes[i] by {
        let b = bytes[i] as int;
        assert((2 * i) / 2 == i && (2 * i) % 2 == 0);
        assert((2 * i + 1) / 2 == i && (2 * i + 1) % 2 == 1);
        assert(0 <= b / 16 < 16 && 0 <= b % 16 < 16);
        assert(hex_value(s[2 * i]) == b / 16);
        assert(hex_value(s[2 * i + 1]) == b % 16);
    }
    assert(bytes_of_hex(s) =~= bytes);
}

/// `getrandom::fill`: so many bytes of the system's randomness, or nothing and what it says where
/// the system has none to give. Nothing is claimed of the bytes. No key, token or nonce is longer
/// than sixty-four of them.
#[verifier::external_body]
pub(crate) fn random_bytes(count: usize) -> (r: Result<Vec<u8>, String>)
    requires
        count <= 64,
    ensures
        r matches Ok(bytes) ==> bytes@.len() == count,
{
    let mut bytes = vec![0u8; count];
    getrandom::fill(&mut bytes).map(|()| bytes).map_err(|e| e.to_string())
}

/// The code of a refusal for want of entropy.
pub const ENTROPY_UNAVAILABLE: &'static str = "kernel-entropy-unavailable";

/// What drawing octets came to: the octets, or a refusal that says what the system said.
pub fn drawn(outcome: Result<Vec<u8>, String>) -> (r: Result<Vec<u8>, Error>)
    ensures
        match outcome {
            Ok(octets) => r == Ok::<Vec<u8>, Error>(octets),
            Err(said) => r matches Err(e) && e@ == fault(ENTROPY_UNAVAILABLE@, said@),
        },
{
    match outcome {
        Ok(octets) => Ok(octets),
        Err(said) => Err(Error::new(ENTROPY_UNAVAILABLE, said)),
    }
}

/// Whether two runs of bytes are the same, looking at every byte of them whatever it finds.
pub fn constant_time_eq(a: &[u8], b: &[u8]) -> (r: bool)
    ensures
        r == (a@ == b@),
{
    if a.len() != b.len() {
        return false;
    }
    let mut difference: u8 = 0;
    let mut i: usize = 0;
    while i < a.len()
        invariant
            a@.len() == b@.len(),
            i <= a@.len(),
            difference == 0 <==> (forall|j: int| 0 <= j < i ==> a@[j] == b@[j]),
        decreases a@.len() - i,
    {
        let x: u8 = a[i];
        let y: u8 = b[i];
        let next: u8 = difference | (x ^ y);
        assert(next == 0 <==> difference == 0 && x == y) by (bit_vector)
            requires
                next == difference | (x ^ y),
        ;
        difference = next;
        i += 1;
    }
    proof {
        if difference == 0 {
            assert(a@ =~= b@);
        }
    }
    difference == 0
}

} // verus!
