//! A lossy ring of frame buffers: one writer, many readers, no copies on read.
//!
//! The writer never waits: it fills the next slot that nobody is reading and
//! publishes it, or lets the frame go when every other slot is being read.
//! A reader borrows the published slot for as long as it holds the [`Frame`];
//! the writer leaves a borrowed slot alone. The shared state is the [`Ring`];
//! [`Sender`] and [`Receiver`] are its two ends, and each of their operations
//! names the ring it acts on.

use vstd::prelude::*;
use crate::errors::{Error, ErrorType};

verus! {

/// The number of slots in a ring.
pub const SLOTS: usize = 2;

/// The most reading ends one ring accepts.
pub const MAX_RECEIVERS: usize = 255;

/// One buffer of the ring.
pub struct Slot {
    data: Vec<u8>,
    timestamp: u64,
    readers: usize,
}

/// The state that the two ends of a ring share.
pub struct Ring {
    slots: Vec<Slot>,
    bufsize: usize,
    current: usize,
    filled: bool,
    open: bool,
    receivers: usize,
}

/// The writing end.
pub struct Sender {}

/// A reading end. It remembers the newest frame it has been handed.
pub struct Receiver {
    timestamp: u64,
    observed: bool,
}

/// A borrowed slot. While it is held the writer does not touch the slot.
pub struct Frame {
    slot: usize,
}

/// What one slot holds.
pub struct SlotView {
    pub data: Seq<u8>,
    pub timestamp: u64,
    /// How many frames borrowed from this slot are still held.
    pub readers: nat,
}

/// What a ring is, as far as its users can tell.
pub struct RingView {
    pub slots: Seq<SlotView>,
    /// The size of every frame, in bytes.
    pub bufsize: nat,
    /// The index of the published slot.
    pub current: int,
    /// Whether any frame has been published yet.
    pub filled: bool,
    /// Whether the writing end is still there.
    pub open: bool,
    /// How many reading ends are attached.
    pub receivers: nat,
}

/// The first slot, going round from `current + k`, that nobody reads and that
/// is not the published one.
pub open spec fn free_from(slots: Seq<SlotView>, current: int, k: int) -> Option<int>
    decreases slots.len() - k,
{
    if k < 1 || k >= slots.len() {
        None
    } else {
        let i = (current + k) % (slots.len() as int);
        if slots[i].readers == 0 {
            Some(i)
        } else {
            free_from(slots, current, k + 1)
        }
    }
}

/// A ring for frames of `size` bytes that was just made: every slot zeroed
/// and unread, nothing published, the writing end open, one reading end.
pub open spec fn fresh_ring(size: usize) -> RingView {
    RingView {
        slots: Seq::new(
            SLOTS as nat,
            |i: int| SlotView { data: Seq::new(size as nat, |j: int| 0u8), timestamp: 0, readers: 0 },
        ),
        bufsize: size as nat,
        current: 0,
        filled: false,
        open: true,
        receivers: 1,
    }
}

impl RingView {
    /// The ring has its slots, each of the ring's frame size, the published
    /// index names one of them, and no more reading ends are attached than a
    /// ring accepts.
    pub open spec fn wf(self) -> bool {
        &&& self.slots.len() == SLOTS
        &&& 0 <= self.current < SLOTS
        &&& self.receivers <= MAX_RECEIVERS
        &&& forall|i: int| 0 <= i < SLOTS ==> (#[trigger] self.slots[i]).data.len() == self.bufsize
    }

    /// The slot the next frame goes to, if there is one.
    pub open spec fn next_free(self) -> Option<int> {
        free_from(self.slots, self.current, 1)
    }

    /// The ring after the writer offered a frame.
    pub open spec fn after_send(self, data: Seq<u8>, timestamp: u64) -> RingView {
        match self.next_free() {
            Some(t) => RingView {
                slots: self.slots.update(t, SlotView { data, timestamp, readers: 0 }),
                current: t,
                filled: true,
                ..self
            },
            None => self,
        }
    }

    /// The timestamp of the published frame.
    pub open spec fn newest(self) -> u64 {
        self.slots[self.current].timestamp
    }

    /// Whether the published frame is news to a reader that has `seen`
    /// (`None`: nothing yet).
    pub open spec fn has_news_for(self, seen: Option<u64>) -> bool {
        &&& self.filled
        &&& self.slots[self.current].readers < usize::MAX
        &&& match seen {
            Some(t) => self.newest() > t,
            None => true,
        }
    }

    /// The ring with one more borrow on slot `i`.
    pub open spec fn borrowed(self, i: int) -> RingView {
        RingView {
            slots: self.slots.update(
                i,
                SlotView { readers: self.slots[i].readers + 1, ..self.slots[i] },
            ),
            ..self
        }
    }

    /// The ring with one borrow on slot `i` given back.
    pub open spec fn returned(self, i: int) -> RingView {
        if self.slots[i].readers > 0 {
            RingView {
                slots: self.slots.update(
                    i,
                    SlotView { readers: (self.slots[i].readers - 1) as nat, ..self.slots[i] },
                ),
                ..self
            }
        } else {
            self
        }
    }
}

impl View for Slot {
    type V = SlotView;

    closed spec fn view(&self) -> SlotView {
        SlotView { data: self.data@, timestamp: self.timestamp, readers: self.readers as nat }
    }
}

impl View for Ring {
    type V = RingView;

    closed spec fn view(&self) -> RingView {
        RingView {
            slots: Seq::new(self.slots@.len(), |i: int| self.slots@[i]@),
            bufsize: self.bufsize as nat,
            current: self.current as int,
            filled: self.filled,
            open: self.open,
            receivers: self.receivers as nat,
        }
    }
}

impl Ring {
    /// The ring has its two slots, each of the ring's frame size, and the
    /// published index names one of them.
    pub closed spec fn wf(&self) -> bool {
        &&& self.slots@.len() == SLOTS
        &&& self.current < SLOTS
        &&& self.receivers <= MAX_RECEIVERS
        &&& forall|i: int| 0 <= i < self.slots@.len() ==> (#[trigger] self.slots@[i]).data@.len() == self.bufsize
    }

    /// A well-formed ring has a well-formed view.
    pub proof fn lemma_view_wf(&self)
        requires
            self.wf(),
        ensures
            self@.wf(),
    {
    }

    /// The size of every frame, in bytes.
    pub fn bufsize(&self) -> (n: usize)
        ensures
            n == self@.bufsize,
    {
        self.bufsize
    }

    /// The number of reading ends attached.
    pub fn receivers(&self) -> (n: usize)
        ensures
            n == self@.receivers,
    {
        self.receivers
    }

    /// Whether the writing end is still there.
    pub fn is_open(&self) -> (b: bool)
        ensures
            b == self@.open,
    {
        self.open
    }

    /// How many frames borrowed from slot `i` are still held.
    pub fn readers(&self, i: usize) -> (n: usize)
        requires
            self.wf(),
            i < SLOTS,
        ensures
            n == self@.slots[i as int].readers,
    {
        self.slots[i].readers
    }
}

/// Replaces what `buf` holds by a copy of `data`.
fn overwrite(buf: &mut Vec<u8>, data: &[u8])
    ensures
        final(buf)@ == data@,
{
    buf.clear();
    let mut i: usize = 0;
    while i < data.len()
        invariant
            i <= data@.len(),
            buf@ == data@.take(i as int),
        decreases data@.len() - i,
    {
        buf.push(data[i]);
        proof {
            assert(data@.take(i as int + 1) =~= data@.take(i as int).push(data@[i as int]));
        }
        i += 1;
    }
    proof {
        assert(data@.take(data@.len() as int) =~= data@);
    }
}

impl Sender {
    /// Offers a frame to the ring. The frame goes to the next slot, going
    /// round from the published one, that nobody is reading, and that slot is
    /// published; if there is none the frame is let go and the ring stays as
    /// it is. Returns whether any reading end is left.
    pub fn send(&self, ring: &mut Ring, data: &[u8], timestamp: u64) -> (alive: bool)
        requires
            old(ring).wf(),
            data@.len() == old(ring)@.bufsize,
        ensures
            final(ring).wf(),
            final(ring)@ == old(ring)@.after_send(data@, timestamp),
            alive == (old(ring)@.receivers > 0),
    {
        let alive = ring.receivers > 0;
        let mut k: usize = 1;
        let mut target: Option<usize> = None;
        while k < SLOTS
            invariant_except_break
                target is None,
                1 <= k <= SLOTS,
                ring@.next_free() == free_from(ring@.slots, ring@.current, k as int),
            invariant
                ring.wf(),
                ring == old(ring),
            ensures
                match target {
                    Some(t) => t < SLOTS && ring@.next_free() == Some(t as int),
                    None => ring@.next_free() is None,
                },
            decreases SLOTS - k,
        {
            let i = (ring.current + k) % SLOTS;
            if ring.slots[i].readers == 0 {
                target = Some(i);
                break ;
            }
            k += 1;
        }
        match target {
            Some(t) => {
                let ghost before = ring@;
                let slot = &mut ring.slots[t];
                overwrite(&mut slot.data, data);
                slot.timestamp = timestamp;
                slot.readers = 0;
                ring.current = t;
                ring.filled = true;
                assert(ring@.slots =~= before.slots.update(
                    t as int,
                    SlotView { data: data@, timestamp, readers: 0 },
                ));
            },
            None => {},
        }
        alive
    }

    /// Closes the writing end: from now on every `recv` reports it.
    pub fn close(self, ring: &mut Ring)
        requires
            old(ring).wf(),
        ensures
            final(ring).wf(),
            final(ring)@ == (RingView { open: false, ..old(ring)@ }),
    {
        ring.open = false;
    }
}

impl Receiver {
    /// The timestamp of the newest frame this end was handed, if any.
    pub closed spec fn seen(&self) -> Option<u64> {
        if self.observed {
            Some(self.timestamp)
        } else {
            None
        }
    }

    /// The timestamp of the newest frame this end was handed, if any.
    pub fn last_timestamp(&self) -> (t: Option<u64>)
        ensures
            t == self.seen(),
    {
        if self.observed {
            Some(self.timestamp)
        } else {
            None
        }
    }

    /// Borrows the published frame if it is newer than every frame this end
    /// was handed before. `Ok(None)` says that there is no news yet: the caller
    /// waits a moment and asks again. Once the writing end is closed the
    /// answer is `VideoSenderClosed`.
    pub fn recv(&mut self, ring: &mut Ring) -> (r: Result<Option<(Frame, u64)>, Error>)
        requires
            old(ring).wf(),
        ensures
            final(ring).wf(),
            !old(ring)@.open ==> {
                &&& r == Err::<Option<(Frame, u64)>, Error>(
                    Error { error_type: ErrorType::VideoSenderClosed },
                )
                &&& final(ring)@ == old(ring)@
                &&& final(self).seen() == old(self).seen()
            },
            old(ring)@.open && !old(ring)@.has_news_for(old(self).seen()) ==> {
                &&& r == Ok::<Option<(Frame, u64)>, Error>(None)
                &&& final(ring)@ == old(ring)@
                &&& final(self).seen() == old(self).seen()
            },
            old(ring)@.open && old(ring)@.has_news_for(old(self).seen()) ==> {
                &&& r matches Ok(Some((frame, timestamp)))
                &&& frame.index() == old(ring)@.current
                &&& timestamp == old(ring)@.newest()
                &&& final(ring)@ == old(ring)@.borrowed(old(ring)@.current)
                &&& final(self).seen() == Some(timestamp)
            },
    {
        if !ring.open {
            return Err(Error { error_type: ErrorType::VideoSenderClosed });
        }
        let current = ring.current;
        let newest = ring.slots[current].timestamp;
        let news = ring.filled && ring.slots[current].readers < usize::MAX && (!self.observed
            || newest > self.timestamp);
        if !news {
            return Ok(None);
        }
        let ghost before = ring@;
        let slot = &mut ring.slots[current];
        slot.readers = slot.readers + 1;
        self.timestamp = newest;
        self.observed = true;
        proof {
            assert(ring@.slots =~= before.borrowed(current as int).slots);
        }
        Ok(Some((Frame { slot: current }, newest)))
    }

    /// Attaches one more reading end, which has seen what this one has seen.
    /// `None` when the ring has as many reading ends as it accepts.
    pub fn clone(&self, ring: &mut Ring) -> (r: Option<Receiver>)
        requires
            old(ring).wf(),
        ensures
            final(ring).wf(),
            old(ring)@.receivers < MAX_RECEIVERS ==> {
                &&& r matches Some(twin)
                &&& twin.seen() == self.seen()
                &&& final(ring)@ == (RingView {
                    receivers: old(ring)@.receivers + 1,
                    ..old(ring)@
                })
            },
            old(ring)@.receivers >= MAX_RECEIVERS ==> r is None && final(ring)@ == old(ring)@,
    {
        if ring.receivers >= MAX_RECEIVERS {
            return None;
        }
        ring.receivers = ring.receivers + 1;
        Some(Receiver { timestamp: self.timestamp, observed: self.observed })
    }

    /// Detaches this reading end.
    pub fn release(self, ring: &mut Ring)
        requires
            old(ring).wf(),
        ensures
            final(ring).wf(),
            final(ring)@ == (RingView {
                receivers: if old(ring)@.receivers > 0 {
                    (old(ring)@.receivers - 1) as nat
                } else {
                    0
                },
                ..old(ring)@
            }),
    {
        if ring.receivers > 0 {
            ring.receivers = ring.receivers - 1;
        }
    }
}

impl Frame {
    /// The index of the borrowed slot.
    pub closed spec fn index(&self) -> int {
        self.slot as int
    }

    #[verifier::type_invariant]
    closed spec fn in_ring(&self) -> bool {
        self.slot < SLOTS
    }

    /// The index of the borrowed slot.
    pub fn slot(&self) -> (i: usize)
        ensures
            i == self.index(),
            i < SLOTS,
    {
        proof {
            use_type_invariant(self);
        }
        self.slot
    }

    /// The bytes of the borrowed frame, where they lie.
    pub fn bytes<'a>(&self, ring: &'a Ring) -> (b: &'a [u8])
        requires
            ring.wf(),
        ensures
            0 <= self.index() < SLOTS,
            b@ == ring@.slots[self.index()].data,
    {
        proof {
            use_type_invariant(self);
        }
        ring.slots[self.slot].data.as_slice()
    }

    /// Gives the slot back.
    pub fn release(self, ring: &mut Ring)
        requires
            old(ring).wf(),
        ensures
            final(ring).wf(),
            final(ring)@ == old(ring)@.returned(self.index()),
    {
        proof {
            use_type_invariant(&self);
        }
        let ghost before = ring@;
        let i = self.slot;
        let slot = &mut ring.slots[i];
        if slot.readers > 0 {
            slot.readers = slot.readers - 1;
        }
        proof {
            assert(ring@.slots =~= before.returned(i as int).slots);
        }
    }
}

/// `n` zero bytes.
fn zeros(n: usize) -> (v: Vec<u8>)
    ensures
        v@ == Seq::new(n as nat, |i: int| 0u8),
{
    let mut v: Vec<u8> = Vec::with_capacity(n);
    let mut i: usize = 0;
    while i < n
        invariant
            i <= n,
            v@ == Seq::new(i as nat, |j: int| 0u8),
        decreases n - i,
    {
        v.push(0);
        i += 1;
        proof {
            assert(v@ =~= Seq::new(i as nat, |j: int| 0u8));
        }
    }
    v
}

/// A ring with its two ends.
pub struct SenderReceiverPair {
    pub ring: Ring,
    pub sender: Sender,
    pub receiver: Receiver,
}

/// Makes a ring for frames of `size` bytes, with its writing end and one
/// reading end. The slots start out zeroed and nothing is published.
pub fn new_ringq(size: usize) -> (pair: SenderReceiverPair)
    ensures
        pair.ring.wf(),
        pair.ring@ == fresh_ring(size),
        pair.receiver.seen() is None,
{
    let mut slots: Vec<Slot> = Vec::with_capacity(SLOTS);
    slots.push(Slot { data: zeros(size), timestamp: 0, readers: 0 });
    slots.push(Slot { data: zeros(size), timestamp: 0, readers: 0 });
    let ring = Ring { slots, bufsize: size, current: 0, filled: false, open: true, receivers: 1 };
    proof {
        assert(ring@.slots =~= fresh_ring(size).slots);
    }
    SenderReceiverPair {
        ring,
        sender: Sender {  },
        receiver: Receiver { timestamp: 0, observed: false },
    }
}

/// Makes a ring for frames of `size` bytes and hands out the ring, its
/// writing end and one reading end.
pub fn videoq(size: usize) -> (r: (Ring, Sender, Receiver))
    ensures
        r.0.wf(),
        r.0@ == fresh_ring(size),
        r.2.seen() is None,
{
    let pair = new_ringq(size);
    (pair.ring, pair.sender, pair.receiver)
}

/// Where the next frame goes, nobody reads, and it is not the published slot.
pub proof fn lemma_next_free(ring: RingView)
    requires
        ring.wf(),
    ensures
        ring.next_free() matches Some(t) ==> {
            &&& 0 <= t < SLOTS
            &&& t != ring.current
            &&& ring.slots[t].readers == 0
        },
        ring.next_free() is None ==> forall|i: int|
            0 <= i < SLOTS && i != ring.current ==> (#[trigger] ring.slots[i]).readers > 0,
{
    reveal_with_fuel(free_from, 3);
}

/// While a frame is held, the writer does not overwrite the borrowed slot:
/// a slot with a reader is the same after a `send` as before it.
pub proof fn lemma_send_spares_borrowed(ring: RingView, data: Seq<u8>, timestamp: u64, i: int)
    requires
        ring.wf(),
        0 <= i < SLOTS,
        ring.slots[i].readers > 0,
    ensures
        ring.after_send(data, timestamp).slots[i] == ring.slots[i],
{
    lemma_next_free(ring);
}

/// The writer never overwrites the newest frame: the slot that was published
/// before a `send` is the same after it.
pub proof fn lemma_send_spares_newest(ring: RingView, data: Seq<u8>, timestamp: u64)
    requires
        ring.wf(),
    ensures
        ring.after_send(data, timestamp).slots[ring.current] == ring.slots[ring.current],
        ring.after_send(data, timestamp).wf() <== data.len() == ring.bufsize,
{
    lemma_next_free(ring);
}

} // verus!
