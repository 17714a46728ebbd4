//! The outside primitives the library builds on: base32 (RFC 4648, no
//! padding) from the `base32` crate, HMAC-SHA1 from `hmac` + `sha1`, and
//! random bytes from `rand`. Each is a thin trusted wrapper; everything
//! around them is verified.

use vstd::prelude::*;
use base32::Alphabet;
use hmac::{Hmac, Mac};
use rand::RngCore;
use sha1::Sha1;

verus! {

/// The RFC 4648 base32 alphabet `A`-`Z`, `2`-`7`.
pub open spec fn is_base32_char(c: char) -> bool {
    ('A' <= c && c <= 'Z') || ('2' <= c && c <= '7')
}

/// Whether every character of `s` is in the RFC 4648 base32 alphabet.
pub open spec fn all_base32(s: Seq<char>) -> bool {
    forall|i: int| 0 <= i < s.len() ==> is_base32_char(#[trigger] s[i])
}

/// The bytes that `base32::decode(Alphabet::Rfc4648 { padding: false }, s)`
/// gives for the text `s`, or `None`.
pub uninterp spec fn base32_decoded(s: Seq<char>) -> Option<Seq<u8>>;

/// The text that `base32::encode(Alphabet::Rfc4648 { padding: false }, data)`
/// gives for `data`.
pub uninterp spec fn base32_encoded(data: Seq<u8>) -> Seq<char>;

/// The 20-byte HMAC-SHA1 tag of `msg` under `key`.
pub uninterp spec fn hmac_sha1_tag(key: Seq<u8>, msg: Seq<u8>) -> Seq<u8>;

/// The bytes held by an optional vector.
pub open spec fn opt_bytes(v: Option<Vec<u8>>) -> Option<Seq<u8>> {
    match v {
        Some(b) => Some(b@),
        None => None,
    }
}

/// `base32::decode` with the RFC 4648 alphabet and no padding.
///
/// Claims, as the crate's source shows: the result is `Some` exactly when
/// every character is in the alphabet `A`-`Z`, `2`-`7` (anything else,
/// non-ASCII text and `=` included, gives `None`), and then holds
/// `len * 5 / 8` bytes. The bytes themselves are named, not restated.
#[verifier::external_body]
pub fn base32_decode(s: &str) -> (res: Option<Vec<u8>>)
    ensures
        opt_bytes(res) == base32_decoded(s@),
        res is Some <==> all_base32(s@),
        res matches Some(v) ==> v@.len() == s@.len() * 5 / 8,
{
    base32::decode(Alphabet::Rfc4648 { padding: false }, s)
}

/// `base32::encode` with the RFC 4648 alphabet and no padding.
///
/// Claims, as the crate's source shows: the text has `(8 * len + 4) / 5`
/// characters, all in the alphabet `A`-`Z`, `2`-`7`, and `decode` with the
/// same alphabet gives `data` back (the encoder emits every full 5-bit
/// group and the decoder keeps `len * 5 / 8` bytes, which is exactly
/// `data.len()`). The characters themselves are named, not restated.
#[verifier::external_body]
pub fn base32_encode(data: &[u8]) -> (res: String)
    ensures
        res@ == base32_encoded(data@),
        res@.len() == (8 * data@.len() + 4) / 5,
        all_base32(res@),
        base32_decoded(res@) == Some(data@),
{
    base32::encode(Alphabet::Rfc4648 { padding: false }, data)
}

/// HMAC-SHA1 of `msg` under `key` (`Hmac::<Sha1>::new_from_slice`, `update`,
/// `finalize`). HMAC accepts keys of any length, so construction cannot
/// fail; the tag is SHA-1's 20-byte output.
#[verifier::external_body]
pub fn hmac_sha1(key: &[u8], msg: &[u8]) -> (res: Vec<u8>)
    ensures
        res@ == hmac_sha1_tag(key@, msg@),
        res@.len() == 20,
{
    let mut mac = Hmac::<Sha1>::new_from_slice(key).expect("hmac takes keys of any length");
    mac.update(msg);
    mac.finalize().into_bytes().to_vec()
}

/// `n` bytes from the thread-local generator (`rand::thread_rng().fill_bytes`).
/// Only the length is claimed: the bytes are random. The generator panics
/// if the operating system's entropy source fails, which no input decides.
#[verifier::external_body]
pub fn random_bytes(n: usize) -> (res: Vec<u8>)
    ensures
        res@.len() == n,
{
    let mut buf = vec![0u8; n];
    rand::thread_rng().fill_bytes(&mut buf);
    buf
}

} // verus!
