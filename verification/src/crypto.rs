//! The keyed hashes that requests are signed with.
use crate::ids;
use hmac::{Hmac, Mac};
use sha2::{Digest, Sha256, Sha512};
use vstd::prelude::*;

verus! {

/// The HMAC-SHA256 of some bytes under a key.
pub uninterp spec fn hmac_sha256_of(key: Seq<u8>, data: Seq<u8>) -> Seq<u8>;

/// The HMAC-SHA512 of some bytes under a key.
pub uninterp spec fn hmac_sha512_of(key: Seq<u8>, data: Seq<u8>) -> Seq<u8>;

/// The SHA-512 of some bytes.
pub uninterp spec fn sha512_of(data: Seq<u8>) -> Seq<u8>;

/// `hmac::Hmac<sha2::Sha256>`: the code of the bytes under the key, which may have any length.
/// It is 32 bytes long.
#[verifier::external_body]
fn hmac_sha256(key: &Vec<u8>, data: &Vec<u8>) -> (r: Vec<u8>)
    ensures
        r@ == hmac_sha256_of(key@, data@),
        r@.len() == 32,
{
    let mut mac = Hmac::<Sha256>::new_from_slice(key).expect("any key length");
    mac.update(data);
    mac.finalize().into_bytes().to_vec()
}

/// `hmac::Hmac<sha2::Sha512>`: the code of the bytes under the key, which may have any length.
/// It is 64 bytes long.
#[verifier::external_body]
fn hmac_sha512(key: &Vec<u8>, data: &Vec<u8>) -> (r: Vec<u8>)
    ensures
        r@ == hmac_sha512_of(key@, data@),
        r@.len() == 64,
{
    let mut mac = Hmac::<Sha512>::new_from_slice(key).expect("any key length");
    mac.update(data);
    mac.finalize().into_bytes().to_vec()
}

/// `sha2::Sha512::digest`: the hash of the bytes, which is 64 bytes long.
#[verifier::external_body]
fn sha512(data: &Vec<u8>) -> (r: Vec<u8>)
    ensures
        r@ == sha512_of(data@),
        r@.len() == 64,
{
    Sha512::digest(data).to_vec()
}

/// The HMAC-SHA256 of a text under a secret, in hexadecimal.
pub open spec fn hmac_sha256_hex_spec(secret: Seq<char>, s: Seq<char>) -> Seq<char> {
    let d = hmac_sha256_of(vstd::utf8::encode_utf8(secret), vstd::utf8::encode_utf8(s));
    ids::hex_of(d, d.len())
}

pub fn hmac_sha256_hex(secret: &str, s: &str) -> (r: String)
    ensures
        r@ == hmac_sha256_hex_spec(secret@, s@),
        r@.len() == 64,
{
    let d = hmac_sha256(&ids::bytes_of(secret), &ids::bytes_of(s));
    proof {
        ids::lemma_hex_len(d@, d@.len());
    }
    ids::hex(&d)
}

/// The HMAC-SHA512 of a text under a secret, in hexadecimal.
pub open spec fn hmac_sha512_hex_spec(secret: Seq<char>, s: Seq<char>) -> Seq<char> {
    let d = hmac_sha512_of(vstd::utf8::encode_utf8(secret), vstd::utf8::encode_utf8(s));
    ids::hex_of(d, d.len())
}

pub fn hmac_sha512_hex(secret: &str, s: &str) -> (r: String)
    ensures
        r@ == hmac_sha512_hex_spec(secret@, s@),
        r@.len() == 128,
{
    let d = hmac_sha512(&ids::bytes_of(secret), &ids::bytes_of(s));
    proof {
        ids::lemma_hex_len(d@, d@.len());
    }
    ids::hex(&d)
}

/// The SHA-512 of a text, in hexadecimal.
pub open spec fn sha512_hex_spec(s: Seq<char>) -> Seq<char> {
    let d = sha512_of(vstd::utf8::encode_utf8(s));
    ids::hex_of(d, d.len())
}

pub fn sha512_hex(s: &str) -> (r: String)
    ensures
        r@ == sha512_hex_spec(s@),
        r@.len() == 128,
{
    let d = sha512(&ids::bytes_of(s));
    proof {
        ids::lemma_hex_len(d@, d@.len());
    }
    ids::hex(&d)
}

} // verus!
