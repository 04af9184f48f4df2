//! Trusted boundary to the cryptographic and encoding crates.
//!
//! Each wrapper relies on one function of an outside crate; its contract
//! states only what that crate's source and documentation give.

use vstd::prelude::*;

use base64::Engine;
use ed25519_dalek::pkcs8::DecodePublicKey;
use ed25519_dalek::Verifier;
use sha2::Digest;

verus! {

/// The SHA-256 digest of a byte string: a function of the bytes alone.
pub uninterp spec fn sha256_of(data: Seq<u8>) -> Seq<u8>;

/// Relies on sha2's `Sha256`: the digest is a function of the input bytes and
/// is 32 bytes long.
#[verifier::external_body]
pub fn sha256(data: &[u8]) -> (r: Vec<u8>)
    ensures
        r@ == sha256_of(data@),
        r@.len() == 32,
{
    let mut hasher = sha2::Sha256::new();
    hasher.update(data);
    hasher.finalize().to_vec()
}

/// The standard base64 (padded) encoding of a byte string.
pub uninterp spec fn b64_of(data: Seq<u8>) -> Seq<char>;

/// Relies on base64's `STANDARD.encode`: the encoding is a function of the
/// input bytes.
#[verifier::external_body]
pub fn b64_encode(data: &[u8]) -> (r: String)
    ensures
        r@ == b64_of(data@),
{
    base64::engine::general_purpose::STANDARD.encode(data)
}

/// Relies on base64's `STANDARD.decode`, which requires canonical padding and
/// rejects set trailing bits: a decode succeeds exactly on canonical
/// encodings, and then returns the encoded bytes.
#[verifier::external_body]
pub fn b64_decode(s: &str) -> (r: Result<Vec<u8>, ()>)
    ensures
        r matches Ok(b) ==> s@ == b64_of(b@),
        r matches Ok(b) ==> forall|bs: Seq<u8>| s@ == b64_of(bs) ==> bs == b@,
        r is Err ==> forall|bs: Seq<u8>| s@ != b64_of(bs),
{
    base64::engine::general_purpose::STANDARD.decode(s).map_err(|_| ())
}

/// What `pem::parse` yields on a byte string: the tag and the decoded body of
/// the first PEM block, or nothing when the input is not PEM.
pub uninterp spec fn pem_of(data: Seq<u8>) -> Option<(Seq<char>, Seq<u8>)>;

/// Relies on pem's `parse`: the result is a function of the input bytes;
/// `tag` and `contents` expose the parsed block.
#[verifier::external_body]
pub fn pem_parse(data: &[u8]) -> (r: Result<(String, Vec<u8>), ()>)
    ensures
        match r {
            Ok((tag, body)) => pem_of(data@) == Some((tag@, body@)),
            Err(()) => pem_of(data@) is None,
        },
{
    match pem::parse(data) {
        Ok(p) => {
            let tag = p.tag().to_string();
            Ok((tag, p.into_contents()))
        },
        Err(_) => Err(()),
    }
}

/// Whether a DER document is a well-formed Ed25519 `SubjectPublicKeyInfo`.
pub uninterp spec fn ed25519_key_ok(der: Seq<u8>) -> bool;

/// Relies on ed25519-dalek's `VerifyingKey::from_public_key_der`: whether the
/// DER bytes parse as an Ed25519 public key is a function of the bytes.
#[verifier::external_body]
pub fn ed25519_pubkey_ok(der: &[u8]) -> (r: bool)
    ensures
        r == ed25519_key_ok(der@),
{
    ed25519_dalek::VerifyingKey::from_public_key_der(der).is_ok()
}

/// Whether `sig` is a valid Ed25519 signature of `msg` under the public key
/// encoded by `der`.
pub uninterp spec fn ed25519_sig_ok(der: Seq<u8>, msg: Seq<u8>, sig: Seq<u8>) -> bool;

/// Relies on ed25519-dalek's `VerifyingKey::from_public_key_der`,
/// `Signature::from_bytes` and `Verifier::verify`: for a parsable key, the
/// verdict is a function of key, message and signature bytes.
#[verifier::external_body]
pub(crate) fn ed25519_verify(der: &[u8], msg: &[u8], sig: &[u8]) -> (r: bool)
    requires
        ed25519_key_ok(der@),
        sig@.len() == 64,
    ensures
        r == ed25519_sig_ok(der@, msg@, sig@),
{
    let key = match ed25519_dalek::VerifyingKey::from_public_key_der(der) {
        Ok(k) => k,
        Err(_) => return false,
    };
    let bytes: [u8; 64] = match sig.try_into() {
        Ok(b) => b,
        Err(_) => return false,
    };
    let signature = ed25519_dalek::Signature::from_bytes(&bytes);
    key.verify(msg, &signature).is_ok()
}

/// Relies on std's `String::from_utf8`: it succeeds exactly on valid UTF-8,
/// and the returned string re-encodes to the input bytes.
#[verifier::external_body]
pub fn string_from_utf8(v: Vec<u8>) -> (r: Result<String, ()>)
    ensures
        r is Ok <==> vstd::utf8::valid_utf8(v@),
        r matches Ok(s) ==> vstd::utf8::encode_utf8(s@) == v@,
{
    String::from_utf8(v).map_err(|_| ())
}

/// A fresh version-4 UUID. Relies on uuid's `Uuid::new_v4` and its `Display`
/// form: random content, always rendered as 36 hyphenated hex characters.
#[verifier::external_body]
pub fn uuid_v4_string() -> (r: String)
    ensures
        r@.len() == 36,
{
    uuid::Uuid::new_v4().to_string()
}

/// 32 fresh random bytes. Relies on rand's `thread_rng` and `fill_bytes`:
/// nothing is known of the content beyond its length.
#[verifier::external_body]
pub fn random_bytes32() -> (r: Vec<u8>)
    ensures
        r@.len() == 32,
{
    let mut bytes = [0u8; 32];
    rand::RngCore::fill_bytes(&mut rand::thread_rng(), &mut bytes);
    bytes.to_vec()
}

} // verus!
