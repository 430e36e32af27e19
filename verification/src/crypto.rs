use vstd::prelude::*;

use ed25519_dalek::{Keypair, PublicKey, Signature, Signer, Verifier};
use rand::rngs::OsRng;

verus! {

/// The public half of a 64-byte keypair encoding: secret key first, public
/// key second.
pub open spec fn public_part(kp: Seq<u8>) -> Seq<u8> {
    kp.subrange(32, 64)
}

/// Whether a byte string is a keypair encoding that parses: 64 bytes whose
/// public half is a valid curve point.
pub uninterp spec fn is_valid_keypair(b: Seq<u8>) -> bool;

/// Whether a byte string is a public-key encoding that parses: 32 bytes that
/// decompress to a curve point.
pub uninterp spec fn is_valid_pubkey(b: Seq<u8>) -> bool;

/// The ed25519 signature over `msg` under the keypair encoded by `kp`.
pub uninterp spec fn sig_of(kp: Seq<u8>, msg: Seq<u8>) -> Seq<u8>;

/// Whether ed25519 verification accepts `sig` over `msg` under the public key
/// `pk`; false also when `sig` is no well-formed signature value.
pub uninterp spec fn ed_verify_of(pk: Seq<u8>, msg: Seq<u8>, sig: Seq<u8>) -> bool;

/// Relies on ed25519's `Keypair::generate`: a fresh keypair whose public half
/// is derived from the secret half, so that its signatures verify under it.
#[verifier::external_body]
pub(crate) fn generate_keypair() -> (r: Vec<u8>)
    ensures
        r@.len() == 64,
        is_valid_keypair(r@),
        is_valid_pubkey(public_part(r@)),
        forall|m: Seq<u8>| #[trigger] ed_verify_of(public_part(r@), m, sig_of(r@, m)),
{
    let mut csprng = OsRng {};
    let kp = Keypair::generate(&mut csprng);
    kp.to_bytes().to_vec()
}

/// Relies on ed25519's `Keypair::from_bytes`: it accepts exactly 64 bytes
/// whose two halves parse, the second as a public key, and checks nothing
/// else.
#[verifier::external_body]
pub(crate) fn keypair_is_valid(b: &Vec<u8>) -> (r: bool)
    ensures
        r == is_valid_keypair(b@),
        r ==> b@.len() == 64,
        r ==> is_valid_pubkey(public_part(b@)),
{
    Keypair::from_bytes(b).is_ok()
}

/// Relies on ed25519's deterministic signing: the signature is a function of
/// the keypair bytes and the message alone, and is 64 bytes long.
#[verifier::external_body]
pub(crate) fn sign_with_keypair(kp: &Vec<u8>, msg: &Vec<u8>) -> (r: Vec<u8>)
    requires
        is_valid_keypair(kp@),
    ensures
        r@ == sig_of(kp@, msg@),
        r@.len() == 64,
{
    match Keypair::from_bytes(kp) {
        Ok(keypair) => keypair.sign(msg).to_bytes().to_vec(),
        Err(_) => Vec::new(),
    }
}

/// Relies on ed25519's `PublicKey::from_bytes`: it accepts exactly 32 bytes
/// that decompress to a curve point.
#[verifier::external_body]
pub(crate) fn pubkey_is_valid(b: &Vec<u8>) -> (r: bool)
    ensures
        r == is_valid_pubkey(b@),
        r ==> b@.len() == 32,
{
    PublicKey::from_bytes(b).is_ok()
}

/// Relies on ed25519 verification: a deterministic function of public key,
/// message and signature bytes; a signature value that does not parse is
/// rejected.
#[verifier::external_body]
pub(crate) fn verify_signature(pk: &Vec<u8>, msg: &Vec<u8>, sig: &Vec<u8>) -> (r: bool)
    requires
        is_valid_pubkey(pk@),
        sig@.len() == 64,
    ensures
        r == ed_verify_of(pk@, msg@, sig@),
{
    let key = match PublicKey::from_bytes(pk) {
        Ok(k) => k,
        Err(_) => {
            return false;
        },
    };
    let signature = match Signature::from_bytes(sig) {
        Ok(s) => s,
        Err(_) => {
            return false;
        },
    };
    key.verify(msg, &signature).is_ok()
}

} // verus!
