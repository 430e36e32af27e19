use vstd::prelude::*;

use crate::attestation::copy_bytes;

verus! {

/// How many inbound payloads the distribution channel retains for slow
/// subscribers.
pub const INBOUND_CHANNEL_CAPACITY: usize = 1024;

/// The contents of a run of payloads, message by message.
pub open spec fn entries_model(s: Seq<Vec<u8>>) -> Seq<Seq<u8>> {
    s.map_values(|v: Vec<u8>| v@)
}

/// The inbound distribution channel: every payload the reactor has fanned
/// out, of which only the newest `capacity` are retained for delivery.
pub struct InboundHub {
    entries: Vec<Vec<u8>>,
    total: u64,
    capacity: usize,
    hist: Ghost<Seq<Seq<u8>>>,
}

/// One subscriber's independent read cursor into the hub's stream.
pub struct InboundSubscriber {
    cursor: u64,
}

/// What one read from the hub yields.
pub enum RecvOutcome {
    /// The next message in the stream.
    Msg(Vec<u8>),
    /// The subscriber fell behind the retention bound: this many messages
    /// were skipped for good, and the cursor now stands at the oldest
    /// retained message.
    Lagged(u64),
    /// Nothing new yet.
    Empty,
}

impl InboundHub {
    /// The retained tail equals the end of the full stream, and never
    /// outgrows the capacity.
    pub closed spec fn wf(self) -> bool {
        &&& self.hist@.len() == self.total
        &&& self.entries@.len() <= self.capacity
        &&& self.entries@.len() <= self.total
        &&& self.capacity >= 1
        &&& entries_model(self.entries@) == self.hist@.skip(
            self.total - self.entries@.len(),
        )
    }

    /// Every payload ever published, in order.
    pub closed spec fn stream(self) -> Seq<Seq<u8>> {
        self.hist@
    }

    /// How many payloads were ever published.
    pub closed spec fn total(self) -> u64 {
        self.total
    }

    /// The payloads still retained, oldest first.
    pub closed spec fn retained(self) -> Seq<Seq<u8>> {
        entries_model(self.entries@)
    }

    pub closed spec fn capacity(self) -> usize {
        self.capacity
    }

    pub fn new(capacity: usize) -> (s: Self)
        requires
            capacity >= 1,
        ensures
            s.wf(),
            s.total() == 0,
            s.capacity() == capacity,
            s.stream() == Seq::<Seq<u8>>::empty(),
            s.retained() == Seq::<Seq<u8>>::empty(),
    {
        let s = InboundHub { entries: Vec::new(), total: 0, capacity, hist: Ghost(Seq::empty()) };
        proof {
            assert(entries_model(s.entries@) =~= Seq::<Seq<u8>>::empty());
            assert(s.hist@.skip(0) =~= s.hist@);
        }
        s
    }

    /// Fans one payload out: it joins the stream, and the oldest retained
    /// message falls away once the channel is full.  Never waits on any
    /// subscriber.
    pub fn publish(&mut self, msg: Vec<u8>)
        requires
            old(self).wf(),
            old(self).total() < u64::MAX,
        ensures
            final(self).wf(),
            final(self).total() == old(self).total() + 1,
            final(self).capacity() == old(self).capacity(),
            final(self).stream() == old(self).stream().push(msg@),
            final(self).retained() == if old(self).retained().len() < old(self).capacity() {
                old(self).retained().push(msg@)
            } else {
                old(self).retained().skip(1).push(msg@)
            },
    {
        let ghost m = msg@;
        let ghost old_entries = self.entries@;
        self.entries.push(msg);
        proof {
            assert(entries_model(self.entries@) =~= entries_model(old_entries).push(m));
        }
        if self.entries.len() > self.capacity {
            let ghost before = self.entries@;
            self.entries.remove(0);
            proof {
                assert(self.entries@ =~= before.skip(1));
                assert(entries_model(before.skip(1)) =~= entries_model(before).skip(1));
                assert(entries_model(before).skip(1) =~= entries_model(old_entries).skip(1).push(
                    m,
                ));
            }
        }
        self.total = self.total + 1;
        proof {
            self.hist@ = self.hist@.push(m);
            let k = old(self).total - old_entries.len();
            assert(old(self).hist@.push(m).skip(k) =~= old(self).hist@.skip(k).push(m));
            if old_entries.len() >= self.capacity {
                assert(old(self).hist@.skip(k).skip(1) =~= old(self).hist@.skip(k + 1));
                assert(old(self).hist@.push(m).skip(k + 1) =~= old(self).hist@.skip(k + 1).push(
                    m,
                ));
                assert(entries_model(old_entries).skip(1) =~= old(self).hist@.skip(k).skip(1));
            }
        }
    }

    /// How many payloads were ever published.
    pub fn total_count(&self) -> (r: u64)
        ensures
            r == self.total(),
    {
        self.total
    }

    /// A new, independent subscriber.  It starts at the stream's present end:
    /// nothing published before it subscribed will ever reach it.
    pub fn subscribe(&self) -> (s: InboundSubscriber)
        ensures
            s.cursor() == self.total(),
    {
        InboundSubscriber { cursor: self.total }
    }
}

impl InboundSubscriber {
    /// The index in the hub's stream of the next message this subscriber
    /// would read.
    pub closed spec fn cursor(self) -> u64 {
        self.cursor
    }

    /// The index in the hub's stream of the next message this subscriber
    /// would read.
    pub fn position(&self) -> (r: u64)
        ensures
            r == self.cursor(),
    {
        self.cursor
    }

    /// One read: the next stream message when it is still retained; a lag
    /// report, skipping for good, when the subscriber fell behind the
    /// retention bound; nothing when it has caught up.  The cursor never
    /// moves backwards.
    pub fn recv(&mut self, hub: &InboundHub) -> (r: RecvOutcome)
        requires
            hub.wf(),
            old(self).cursor() <= hub.total(),
        ensures
            old(self).cursor() <= final(self).cursor() <= hub.total(),
            match r {
                RecvOutcome::Empty => {
                    &&& old(self).cursor() == hub.total()
                    &&& final(self).cursor() == old(self).cursor()
                },
                RecvOutcome::Lagged(n) => {
                    &&& hub.total() - old(self).cursor() > hub.retained().len()
                    &&& n == hub.total() - hub.retained().len() - old(self).cursor()
                    &&& final(self).cursor() == hub.total() - hub.retained().len()
                },
                RecvOutcome::Msg(m) => {
                    &&& old(self).cursor() < hub.total()
                    &&& hub.total() - old(self).cursor() <= hub.retained().len()
                    &&& m@ == hub.stream()[old(self).cursor() as int]
                    &&& final(self).cursor() == old(self).cursor() + 1
                },
            },
    {
        if self.cursor == hub.total {
            return RecvOutcome::Empty;
        }
        let behind: u64 = hub.total - self.cursor;
        let retained_len: u64 = hub.entries.len() as u64;
        if behind > retained_len {
            let skipped: u64 = behind - retained_len;
            self.cursor = hub.total - retained_len;
            return RecvOutcome::Lagged(skipped);
        }
        let idx: usize = (retained_len - behind) as usize;
        proof {
            let k = hub.total - hub.entries@.len();
            assert(entries_model(hub.entries@)[idx as int] == hub.hist@.skip(k)[idx as int]);
            assert(hub.hist@.skip(k)[idx as int] == hub.hist@[k + idx]);
            assert(k + idx == self.cursor);
        }
        let msg = copy_bytes(&hub.entries[idx]);
        self.cursor = self.cursor + 1;
        RecvOutcome::Msg(msg)
    }
}

} // verus!
