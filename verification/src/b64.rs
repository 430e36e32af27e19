use vstd::prelude::*;

use base64::Engine;

verus! {

/// The standard base64 writing of a byte string, as ASCII bytes.
pub uninterp spec fn b64_of(b: Seq<u8>) -> Seq<u8>;

/// What standard base64 reading makes of an ASCII byte string, when anything.
pub uninterp spec fn b64_inv(s: Seq<u8>) -> Option<Seq<u8>>;

/// Relies on base64's standard engine: encoding a byte string, which decodes
/// back to the same bytes.
#[verifier::external_body]
pub(crate) fn b64_encode(b: &Vec<u8>) -> (r: Vec<u8>)
    ensures
        r@ == b64_of(b@),
        b64_inv(r@) == Some(b@),
{
    base64::engine::general_purpose::STANDARD.encode(b).into_bytes()
}

/// Relies on base64's standard engine: decoding an ASCII byte string, which
/// fails exactly on input that is no base64 writing the engine accepts.
#[verifier::external_body]
pub(crate) fn b64_decode(s: &Vec<u8>) -> (r: Option<Vec<u8>>)
    ensures
        match r {
            Some(v) => b64_inv(s@) == Some(v@),
            None => b64_inv(s@) is None,
        },
{
    match base64::engine::general_purpose::STANDARD.decode(s) {
        Ok(v) => Some(v),
        Err(_) => None,
    }
}

} // verus!
