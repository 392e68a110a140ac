//! The digest function: SHA-1 over a byte sequence, rendered as a fixed-length
//! lowercase hexadecimal string. The hex rendering is specified exactly; the
//! SHA-1 output itself is named by an uninterpreted function, so determinism
//! (the same bytes always give the same digest) is part of the contract.

use vstd::prelude::*;

use sha1::{Digest, Sha1};

verus! {

/// The SHA-1 digest of a byte sequence: a pure function of the bytes alone.
pub uninterp spec fn sha1_of(data: Seq<u8>) -> Seq<u8>;

/// The lowercase hexadecimal character for a value below 16.
pub open spec fn hex_digit_char(v: u8) -> char
    recommends
        v < 16,
{
    if v < 10 {
        ((v + 48) as u8) as char
    } else {
        ((v + 87) as u8) as char
    }
}

/// Whether `c` is a hexadecimal digit, upper or lower case.
pub open spec fn is_hex_digit(c: char) -> bool {
    (48 <= c as u32 && c as u32 <= 57) || (97 <= c as u32 && c as u32 <= 102) || (65 <= c as u32
        && c as u32 <= 70)
}

/// The value of a hexadecimal digit character.
pub open spec fn hex_digit_val(c: char) -> u8
    recommends
        is_hex_digit(c),
{
    if 48 <= c as u32 && c as u32 <= 57 {
        (c as u32 - 48) as u8
    } else if 97 <= c as u32 && c as u32 <= 102 {
        (c as u32 - 87) as u8
    } else {
        (c as u32 - 55) as u8
    }
}

/// The lowercase hexadecimal rendering of a byte sequence: two digits per
/// byte, high nibble first.
pub open spec fn hex_of(bytes: Seq<u8>) -> Seq<char> {
    Seq::new(
        bytes.len() * 2,
        |i: int|
            if i % 2 == 0 {
                hex_digit_char(bytes[i / 2] / 16)
            } else {
                hex_digit_char(bytes[i / 2] % 16)
            },
    )
}

/// Whether a character sequence spells bytes in hexadecimal: even length,
/// every character a hex digit (either case).
pub open spec fn is_hex_seq(s: Seq<char>) -> bool {
    s.len() % 2 == 0 && forall|i: int| 0 <= i < s.len() ==> is_hex_digit(#[trigger] s[i])
}

/// The bytes spelled by a hexadecimal character sequence.
pub open spec fn bytes_of_hex(s: Seq<char>) -> Seq<u8>
    recommends
        is_hex_seq(s),
{
    Seq::new(s.len() / 2, |i: int| (hex_digit_val(s[2 * i]) * 16 + hex_digit_val(s[2 * i + 1])) as u8)
}

/// The digest of a byte sequence as this library renders it: the lowercase
/// hexadecimal form of its SHA-1 hash.
pub open spec fn digest_of(data: Seq<u8>) -> Seq<char> {
    hex_of(sha1_of(data))
}

/// Relies on `sha1::Sha1` through the `digest` traits: the SHA-1 hash of the
/// input bytes, a function of the input alone, always 20 bytes long.
#[verifier::external_body]
fn sha1_bytes(data: &Vec<u8>) -> (r: Vec<u8>)
    ensures
        r@ == sha1_of(data@),
        r@.len() == 20,
{
    let mut hasher = Sha1::new();
    hasher.update(data.as_slice());
    hasher.finalize().to_vec()
}

/// Relies on `hex::encode`: renders each input byte as two lowercase
/// hexadecimal digits, high nibble first.
#[verifier::external_body]
pub(crate) fn hex_encode(data: &[u8]) -> (r: String)
    ensures
        r@ == hex_of(data@),
{
    hex::encode(data)
}

/// Relies on `hex::decode`: accepts exactly the even-length strings of
/// hexadecimal digits (either case) and returns the bytes they spell.
#[verifier::external_body]
pub(crate) fn hex_decode(s: &String) -> (r: Option<Vec<u8>>)
    ensures
        r is Some <==> is_hex_seq(s@),
        r matches Some(v) ==> v@ == bytes_of_hex(s@),
{
    match hex::decode(s.as_str()) {
        Ok(v) => Some(v),
        Err(_) => None,
    }
}

/// A hexadecimal digit character is recovered exactly by `hex_digit_val`.
pub proof fn lemma_hex_digit_roundtrip(v: u8)
    requires
        v < 16,
    ensures
        is_hex_digit(hex_digit_char(v)),
        hex_digit_val(hex_digit_char(v)) == v,
        97 <= hex_digit_char(v) as u32 <= 102 || 48 <= hex_digit_char(v) as u32 <= 57,
{
}

/// The hex rendering of any byte sequence is a valid hex sequence, lowercase,
/// and twice as long as the input.
pub proof fn lemma_hex_of_valid(bytes: Seq<u8>)
    ensures
        is_hex_seq(hex_of(bytes)),
        hex_of(bytes).len() == 2 * bytes.len(),
{
    assert forall|i: int| 0 <= i < hex_of(bytes).len() implies is_hex_digit(
        #[trigger] hex_of(bytes)[i],
    ) by {
        if i % 2 == 0 {
            lemma_hex_digit_roundtrip(bytes[i / 2] / 16);
        } else {
            lemma_hex_digit_roundtrip(bytes[i / 2] % 16);
        }
    }
}

/// Decoding the hex rendering of a byte sequence gives the bytes back.
pub proof fn lemma_hex_roundtrip(bytes: Seq<u8>)
    ensures
        bytes_of_hex(hex_of(bytes)) == bytes,
{
    let h = hex_of(bytes);
    assert forall|i: int| 0 <= i < bytes.len() implies bytes_of_hex(h)[i] == bytes[i] by {
        let b = bytes[i];
        lemma_hex_digit_roundtrip(b / 16);
        lemma_hex_digit_roundtrip(b % 16);
        assert(h[2 * i] == hex_digit_char(b / 16));
        assert(h[2 * i + 1] == hex_digit_char(b % 16));
        assert((b / 16) * 16 + b % 16 == b) by (nonlinear_arith);
    }
    assert(bytes_of_hex(h) =~= bytes);
}

/// Computes the digest of a byte sequence: its SHA-1 hash, rendered in
/// lowercase hexadecimal. Deterministic: the result is a function of the
/// bytes alone, so repeated calls on equal bytes agree.
pub fn hash(data: &Vec<u8>) -> (r: String)
    ensures
        r@ == digest_of(data@),
        r@.len() == 40,
        is_hex_seq(r@),
{
    let digest = sha1_bytes(data);
    proof {
        lemma_hex_of_valid(digest@);
    }
    hex_encode(digest.as_slice())
}

/// Determinism of the digest function: any two digests of the same byte
/// sequence are equal.
pub proof fn lemma_hash_deterministic(data: Seq<u8>, d1: Seq<char>, d2: Seq<char>)
    requires
        d1 == digest_of(data),
        d2 == digest_of(data),
    ensures
        d1 == d2,
{
}

} // verus!
