use vstd::prelude::*;

use crate::b64::{b64_of, b64_inv, b64_encode, b64_decode};
use crate::codec::{AttView, enc_att, encode_fields};
use crate::crypto::{
    public_part,
    is_valid_keypair,
    is_valid_pubkey,
    sig_of,
    ed_verify_of,
    generate_keypair,
    keypair_is_valid,
    sign_with_keypair,
};
use crate::numtext::dec_digits;

verus! {

/// Why a supplied identity secret was turned away.
#[derive(Debug, PartialEq, Eq, Structural)]
pub enum IdentityError {
    /// The secret is not base64.
    BadEncoding,
    /// The decoded bytes are no keypair encoding.
    InvalidKeypair,
}

/// A signing identity: a 64-byte ed25519 keypair encoding and the base64
/// writing of its public half.
pub struct Attester {
    keypair: Vec<u8>,
    pubkey_b64: Vec<u8>,
}

/// Copies a byte string.
pub fn copy_bytes(v: &Vec<u8>) -> (r: Vec<u8>)
    ensures
        r@ == v@,
{
    let mut out: Vec<u8> = Vec::new();
    let mut i: usize = 0;
    while i < v.len()
        invariant
            i <= v@.len(),
            out@ == v@.take(i as int),
        decreases v@.len() - i,
    {
        out.push(v[i]);
        proof {
            assert(out@ =~= v@.take(i + 1));
        }
        i = i + 1;
    }
    proof {
        assert(v@.take(v@.len() as int) =~= v@);
    }
    out
}

/// The public half of a 64-byte keypair encoding, as its own byte string.
pub fn public_part_vec(kp: &Vec<u8>) -> (r: Vec<u8>)
    requires
        kp@.len() == 64,
    ensures
        r@ == public_part(kp@),
{
    let mut out: Vec<u8> = Vec::new();
    let mut i: usize = 32;
    while i < 64
        invariant
            32 <= i <= 64,
            kp@.len() == 64,
            out@ == kp@.subrange(32, i as int),
        decreases 64 - i,
    {
        out.push(kp[i]);
        proof {
            assert(out@ =~= kp@.subrange(32, i + 1));
        }
        i = i + 1;
    }
    out
}

/// What `Attester::from_secret_b64` promises of its result.
pub open spec fn from_secret_post(secret_b64: Seq<u8>, r: Result<Attester, IdentityError>) -> bool {
    match r {
        Ok(a) => {
            &&& b64_inv(secret_b64) == Some(a.keypair_model())
            &&& is_valid_keypair(a.keypair_model())
            &&& a.pubkey_b64_model() == b64_of(public_part(a.keypair_model()))
        },
        Err(e) => match e {
            IdentityError::BadEncoding => b64_inv(secret_b64) is None,
            IdentityError::InvalidKeypair => exists|kp: Seq<u8>|
                b64_inv(secret_b64) == Some(kp) && !is_valid_keypair(kp),
        },
    }
}

/// What `Attester::generate` promises of its result.
pub open spec fn generate_post(r: Result<Attester, IdentityError>) -> bool {
    match r {
        Ok(a) => {
            &&& is_valid_keypair(a.keypair_model())
            &&& a.pubkey_b64_model() == b64_of(public_part(a.keypair_model()))
            &&& forall|m: Seq<u8>|
                #[trigger] ed_verify_of(
                    public_part(a.keypair_model()),
                    m,
                    sig_of(a.keypair_model(), m),
                )
        },
        Err(_) => false,
    }
}

impl Attester {
    #[verifier::type_invariant]
    spec fn wf(self) -> bool {
        &&& self.keypair@.len() == 64
        &&& is_valid_keypair(self.keypair@)
        &&& is_valid_pubkey(public_part(self.keypair@))
        &&& self.pubkey_b64@ == b64_of(public_part(self.keypair@))
    }

    /// The 64-byte keypair encoding this identity signs with.
    pub closed spec fn keypair_model(self) -> Seq<u8> {
        self.keypair@
    }

    /// The base64 writing of the public half.
    pub closed spec fn pubkey_b64_model(self) -> Seq<u8> {
        self.pubkey_b64@
    }

    /// A fresh random identity.  Signatures made with it verify under its
    /// public key.
    pub fn generate() -> (r: Result<Attester, IdentityError>)
        ensures
            r is Ok,
            generate_post(r),
    {
        let kp = generate_keypair();
        let pub_bytes = public_part_vec(&kp);
        let pub_b64 = b64_encode(&pub_bytes);
        Ok(Attester { keypair: kp, pubkey_b64: pub_b64 })
    }

    /// An identity read back from the base64 writing of a 64-byte keypair
    /// encoding; turned away exactly when the writing or the encoding is bad.
    pub fn from_secret_b64(secret_b64: &Vec<u8>) -> (r: Result<Attester, IdentityError>)
        ensures
            from_secret_post(secret_b64@, r),
    {
        let bytes = match b64_decode(secret_b64) {
            Some(b) => b,
            None => {
                return Err(IdentityError::BadEncoding);
            },
        };
        if !keypair_is_valid(&bytes) {
            return Err(IdentityError::InvalidKeypair);
        }
        let pub_bytes = public_part_vec(&bytes);
        let pub_b64 = b64_encode(&pub_bytes);
        Ok(Attester { keypair: bytes, pubkey_b64: pub_b64 })
    }

    /// The supplied secret when there is one, else a fresh random identity.
    pub fn from_env_or_random(opt_secret: Option<&Vec<u8>>) -> (r: Result<Attester, IdentityError>)
        ensures
            match opt_secret {
                Some(s) => from_secret_post(s@, r),
                None => r is Ok && generate_post(r),
            },
    {
        match opt_secret {
            Some(s) => Attester::from_secret_b64(s),
            None => Attester::generate(),
        }
    }

    /// The base64 writing of this identity's public key.
    pub fn pubkey_b64(&self) -> (r: &Vec<u8>)
        ensures
            r@ == self.pubkey_b64_model(),
            self.pubkey_b64_model() == b64_of(public_part(self.keypair_model())),
    {
        proof {
            use_type_invariant(&*self);
        }
        &self.pubkey_b64
    }

    /// Signs a payload: the 64-byte ed25519 signature over it.
    pub fn sign(&self, payload: &Vec<u8>) -> (r: Vec<u8>)
        ensures
            r@ == sig_of(self.keypair_model(), payload@),
            r@.len() == 64,
    {
        proof {
            use_type_invariant(&*self);
        }
        sign_with_keypair(&self.keypair, payload)
    }
}

/// An attestation message as carried on the wire: all three fields byte
/// strings, the issuer and signature written in base64.
pub struct Attestation {
    pub issuer: Vec<u8>,
    pub payload: Vec<u8>,
    pub signature_b64: Vec<u8>,
}

impl View for Attestation {
    type V = AttView;

    open spec fn view(&self) -> AttView {
        AttView {
            issuer: self.issuer@,
            payload: self.payload@,
            signature_b64: self.signature_b64@,
        }
    }
}

/// `heartbeat:`
pub open spec fn lit_heartbeat() -> Seq<u8> {
    seq![0x68u8, 0x65, 0x61, 0x72, 0x74, 0x62, 0x65, 0x61, 0x74, 0x3a]
}

/// The heartbeat payload for a tick: `heartbeat:` followed by the timestamp
/// in decimal.
pub open spec fn heartbeat_payload_spec(ts: u64) -> Seq<u8> {
    lit_heartbeat() + dec_digits(ts as nat)
}

/// The attestation a producer with keypair `kp` issues at `ts`: its own
/// public key as issuer, the heartbeat payload, and its signature over that
/// payload, in base64.
pub open spec fn heartbeat_view(kp: Seq<u8>, ts: u64) -> AttView {
    AttView {
        issuer: b64_of(public_part(kp)),
        payload: heartbeat_payload_spec(ts),
        signature_b64: b64_of(sig_of(kp, heartbeat_payload_spec(ts))),
    }
}

/// The producer of periodic signed heartbeat attestations.
pub struct AttestationService {
    attester: Attester,
}

impl AttestationService {
    /// The keypair encoding of the identity this service signs with.
    pub closed spec fn attester_model(self) -> Seq<u8> {
        self.attester.keypair_model()
    }

    pub fn new(att: Attester) -> (s: Self)
        ensures
            s.attester_model() == att.keypair_model(),
    {
        AttestationService { attester: att }
    }

    /// One heartbeat tick: the attestation for `timestamp`, and its
    /// serialized form, ready to publish on the attestation topic.
    pub fn heartbeat_message(&self, timestamp: u64) -> (r: (Attestation, Vec<u8>))
        ensures
            r.0@ == heartbeat_view(self.attester_model(), timestamp),
            r.1@ == enc_att(heartbeat_view(self.attester_model(), timestamp)),
    {
        let mut payload: Vec<u8> = Vec::new();
        payload.push(0x68);
        payload.push(0x65);
        payload.push(0x61);
        payload.push(0x72);
        payload.push(0x74);
        payload.push(0x62);
        payload.push(0x65);
        payload.push(0x61);
        payload.push(0x74);
        payload.push(0x3a);
        proof {
            assert(payload@ =~= lit_heartbeat());
        }
        let mut digits = crate::numtext::u64_to_dec(timestamp);
        payload.append(&mut digits);
        proof {
            assert(payload@ == heartbeat_payload_spec(timestamp));
        }
        let sig = self.attester.sign(&payload);
        let sig_b64 = b64_encode(&sig);
        let issuer = copy_bytes(self.attester.pubkey_b64());
        let bytes = encode_fields(&issuer, &payload, &sig_b64);
        (Attestation { issuer, payload, signature_b64: sig_b64 }, bytes)
    }
}

} // verus!
