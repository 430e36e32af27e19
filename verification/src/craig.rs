use vstd::prelude::*;

use crate::b64::{b64_inv, b64_decode};
use crate::codec::{AttView, enc_att, dec_att, encode_fields, decode_fields};
use crate::crypto::{is_valid_pubkey, ed_verify_of, pubkey_is_valid, verify_signature};

verus! {

/// An attestation message as reconstructed from an inbound payload.
pub struct ReceivedAttestation {
    pub issuer: Vec<u8>,
    pub payload: Vec<u8>,
    pub signature_b64: Vec<u8>,
}

impl View for ReceivedAttestation {
    type V = AttView;

    open spec fn view(&self) -> AttView {
        AttView {
            issuer: self.issuer@,
            payload: self.payload@,
            signature_b64: self.signature_b64@,
        }
    }
}

/// Where the handling of one inbound payload ends: the first requirement
/// it fails, or `Accepted` when every requirement holds.
#[derive(Debug, PartialEq, Eq, Structural)]
pub enum InboundOutcome {
    /// The payload does not spell an attestation message; the stream
    /// legitimately carries such traffic.
    NotAttestation,
    /// The issuer field is not base64.
    BadIssuerEncoding,
    /// The issuer bytes are no public key.
    InvalidIssuerKey,
    /// The signature field is not base64.
    BadSignatureEncoding,
    /// The signature bytes are not 64 bytes long.
    BadSignatureLength,
    /// The signature does not verify over the payload under the issuer key.
    SignatureMismatch,
    /// Verified and appended to the buffer.
    Accepted,
}

/// Where the handling of an inbound payload ends.
pub open spec fn classify(p: Seq<u8>) -> InboundOutcome {
    match dec_att(p) {
        None => InboundOutcome::NotAttestation,
        Some(v) => match b64_inv(v.issuer) {
            None => InboundOutcome::BadIssuerEncoding,
            Some(key) => if !is_valid_pubkey(key) {
                InboundOutcome::InvalidIssuerKey
            } else {
                match b64_inv(v.signature_b64) {
                    None => InboundOutcome::BadSignatureEncoding,
                    Some(sig) => if sig.len() != 64 {
                        InboundOutcome::BadSignatureLength
                    } else if !ed_verify_of(key, v.payload, sig) {
                        InboundOutcome::SignatureMismatch
                    } else {
                        InboundOutcome::Accepted
                    },
                }
            },
        },
    }
}

/// The serialized forms of a run of attestation messages, separated by commas.
pub open spec fn enc_items(items: Seq<AttView>) -> Seq<u8>
    decreases items.len(),
{
    if items.len() == 0 {
        Seq::empty()
    } else if items.len() == 1 {
        enc_att(items[0])
    } else {
        enc_att(items[0]) + seq![0x2cu8] + enc_items(items.skip(1))
    }
}

/// The serialized form of a batch: a JSON array of attestation messages.
pub open spec fn enc_batch(items: Seq<AttView>) -> Seq<u8> {
    seq![0x5bu8] + enc_items(items) + seq![0x5du8]
}

pub proof fn lemma_enc_items_push(items: Seq<AttView>, x: AttView)
    requires
        items.len() >= 1,
    ensures
        enc_items(items.push(x)) == enc_items(items) + seq![0x2cu8] + enc_att(x),
    decreases items.len(),
{
    let w = items.push(x);
    assert(w[0] == items[0]);
    if items.len() == 1 {
        assert(w.skip(1) =~= seq![x]);
        assert(enc_items(seq![x]) == enc_att(x));
        assert(enc_items(w) == enc_att(items[0]) + seq![0x2cu8] + enc_att(x));
        assert(enc_items(items) == enc_att(items[0]));
    } else {
        assert(w.skip(1) =~= items.skip(1).push(x));
        lemma_enc_items_push(items.skip(1), x);
        assert(enc_items(w) == enc_att(items[0]) + seq![0x2cu8] + (enc_items(items.skip(1))
            + seq![0x2cu8] + enc_att(x)));
        assert(enc_att(items[0]) + seq![0x2cu8] + (enc_items(items.skip(1)) + seq![0x2cu8]
            + enc_att(x)) =~= (enc_att(items[0]) + seq![0x2cu8] + enc_items(items.skip(1)))
            + seq![0x2cu8] + enc_att(x));
    }
}

/// The contents of a buffer, message by message.
pub open spec fn buf_model(s: Seq<ReceivedAttestation>) -> Seq<AttView> {
    s.map_values(|r: ReceivedAttestation| r@)
}

/// Serializes a batch of attestation messages.
pub fn encode_batch(items: &Vec<ReceivedAttestation>) -> (r: Vec<u8>)
    ensures
        r@ == enc_batch(buf_model(items@)),
{
    let ghost model = buf_model(items@);
    let mut out: Vec<u8> = Vec::new();
    out.push(0x5b);
    proof {
        assert(out@ =~= seq![0x5bu8]);
        assert(model.take(0) =~= Seq::<AttView>::empty());
        assert(out@ =~= seq![0x5bu8] + enc_items(model.take(0)));
    }
    let mut i: usize = 0;
    while i < items.len()
        invariant
            i <= items@.len(),
            model == buf_model(items@),
            model.len() == items@.len(),
            out@ == seq![0x5bu8] + enc_items(model.take(i as int)),
        decreases items@.len() - i,
    {
        if i > 0 {
            out.push(0x2c);
        }
        let item = &items[i];
        let mut bytes = encode_fields(&item.issuer, &item.payload, &item.signature_b64);
        proof {
            assert(model[i as int] == items@[i as int]@);
            assert(bytes@ == enc_att(model[i as int]));
            assert(model.take(i + 1) =~= model.take(i as int).push(model[i as int]));
        }
        out.append(&mut bytes);
        proof {
            if i == 0 {
                assert(model.take(1) =~= seq![model[0]]);
                assert(enc_items(seq![model[0]]) == enc_att(model[0]));
                assert(out@ =~= seq![0x5bu8] + enc_items(model.take(1)));
            } else {
                lemma_enc_items_push(model.take(i as int), model[i as int]);
                assert(out@ =~= seq![0x5bu8] + (enc_items(model.take(i as int)) + seq![0x2cu8]
                    + enc_att(model[i as int])));
            }
        }
        i = i + 1;
    }
    out.push(0x5d);
    proof {
        assert(model.take(model.len() as int) =~= model);
        assert(out@ =~= enc_batch(model));
    }
    out
}

/// The aggregation stage's shared state: the buffer of verified
/// attestations, with a record of everything accepted and everything flushed.
pub struct CraigAggregator {
    store: Vec<ReceivedAttestation>,
    history: Ghost<Seq<AttView>>,
    batches: Ghost<Seq<Seq<AttView>>>,
}

impl CraigAggregator {
    /// Accounting: the batches flushed so far and the present buffer together
    /// hold exactly the attestations ever accepted, in order.
    pub closed spec fn wf(self) -> bool {
        self.batches@.flatten() + buf_model(self.store@) == self.history@
    }

    /// The verified attestations now buffered, oldest first.
    pub closed spec fn buffer(self) -> Seq<AttView> {
        buf_model(self.store@)
    }

    /// Every attestation ever accepted, in order of acceptance.
    pub closed spec fn history(self) -> Seq<AttView> {
        self.history@
    }

    /// Every batch flushed so far, in order.
    pub closed spec fn batches(self) -> Seq<Seq<AttView>> {
        self.batches@
    }

    /// No attestation is lost and none is published twice: the flushed
    /// batches followed by the buffer are exactly the accepted history.
    pub proof fn lemma_accounting(self)
        requires
            self.wf(),
        ensures
            self.batches().flatten() + self.buffer() == self.history(),
    {
    }

    pub fn new() -> (s: Self)
        ensures
            s.wf(),
            s.buffer() == Seq::<AttView>::empty(),
            s.history() == Seq::<AttView>::empty(),
            s.batches() == Seq::<Seq<AttView>>::empty(),
    {
        let s = CraigAggregator {
            store: Vec::new(),
            history: Ghost(Seq::empty()),
            batches: Ghost(Seq::empty()),
        };
        proof {
            assert(s.batches@.flatten() =~= Seq::<AttView>::empty());
            assert(buf_model(s.store@) =~= Seq::<AttView>::empty());
            assert(s.batches@.flatten() + buf_model(s.store@) =~= Seq::<AttView>::empty());
        }
        s
    }

    /// How many verified attestations are buffered.
    pub fn len(&self) -> (r: usize)
        ensures
            r == self.buffer().len(),
    {
        self.store.len()
    }

    /// The buffered attestation at `i`, oldest first.
    pub fn entry(&self, i: usize) -> (r: &ReceivedAttestation)
        requires
            i < self.buffer().len(),
        ensures
            r@ == self.buffer()[i as int],
    {
        &self.store[i]
    }

    /// Runs one inbound payload through decoding and verification; appends it
    /// to the buffer exactly when every requirement holds, and otherwise
    /// leaves all state unchanged.
    pub fn handle_inbound(&mut self, payload: &Vec<u8>) -> (r: InboundOutcome)
        requires
            old(self).wf(),
        ensures
            final(self).wf(),
            r == classify(payload@),
            r == InboundOutcome::Accepted ==> {
                &&& final(self).buffer() == old(self).buffer().push(dec_att(payload@).unwrap())
                &&& final(self).history() == old(self).history().push(dec_att(payload@).unwrap())
                &&& final(self).batches() == old(self).batches()
            },
            r != InboundOutcome::Accepted ==> {
                &&& final(self).buffer() == old(self).buffer()
                &&& final(self).history() == old(self).history()
                &&& final(self).batches() == old(self).batches()
            },
    {
        let decoded = match decode_fields(payload) {
            Some(t) => t,
            None => {
                return InboundOutcome::NotAttestation;
            },
        };
        let (iss, pay, sig_b64) = decoded;
        let ghost v = dec_att(payload@).unwrap();
        let key = match b64_decode(&iss) {
            Some(k) => k,
            None => {
                return InboundOutcome::BadIssuerEncoding;
            },
        };
        if !pubkey_is_valid(&key) {
            return InboundOutcome::InvalidIssuerKey;
        }
        let sig = match b64_decode(&sig_b64) {
            Some(s) => s,
            None => {
                return InboundOutcome::BadSignatureEncoding;
            },
        };
        if sig.len() != 64 {
            return InboundOutcome::BadSignatureLength;
        }
        if !verify_signature(&key, &pay, &sig) {
            return InboundOutcome::SignatureMismatch;
        }
        let att = ReceivedAttestation { issuer: iss, payload: pay, signature_b64: sig_b64 };
        proof {
            assert(att@ == v);
        }
        self.store.push(att);
        proof {
            self.history@ = self.history@.push(v);
            assert(buf_model(self.store@) =~= buf_model(old(self).store@).push(v));
            assert(self.batches@.flatten() + buf_model(old(self).store@).push(v) =~= (
            self.batches@.flatten() + buf_model(old(self).store@)).push(v));
        }
        InboundOutcome::Accepted
    }

    /// One flush tick: when the buffer is non-empty, serializes its whole
    /// contents as one batch, clears it, and hands the batch back; the read
    /// and the clear concern the very same contents.
    pub fn flush(&mut self) -> (r: Option<Vec<u8>>)
        requires
            old(self).wf(),
        ensures
            final(self).wf(),
            match r {
                Some(b) => {
                    &&& old(self).buffer().len() > 0
                    &&& b@ == enc_batch(old(self).buffer())
                    &&& final(self).buffer() == Seq::<AttView>::empty()
                    &&& final(self).batches() == old(self).batches().push(old(self).buffer())
                    &&& final(self).history() == old(self).history()
                },
                None => {
                    &&& old(self).buffer().len() == 0
                    &&& final(self).buffer() == old(self).buffer()
                    &&& final(self).batches() == old(self).batches()
                    &&& final(self).history() == old(self).history()
                },
            },
    {
        if self.store.len() == 0 {
            proof {
                assert(buf_model(self.store@).len() == self.store@.len());
            }
            return None;
        }
        let batch = encode_batch(&self.store);
        self.store.clear();
        proof {
            self.batches@ = self.batches@.push(buf_model(old(self).store@));
            Seq::lemma_flatten_push(old(self).batches@, buf_model(old(self).store@));
            assert(buf_model(self.store@) =~= Seq::<AttView>::empty());
            assert(self.batches@.flatten() + buf_model(self.store@) =~= self.batches@.flatten());
            assert(self.batches@.flatten() =~= old(self).batches@.flatten() + buf_model(
                old(self).store@,
            ));
        }
        Some(batch)
    }
}

} // verus!
