//! A conflation channel: one writer, many readers, depth one.
//!
//! The channel keeps two slots. The writer fills the slot it points at,
//! publishes that slot's index and moves on to the other one, so a reader is
//! never made to wait and always finds a recent value. The shared state is the
//! [`Channel`]; [`Sender`] and [`Receiver`] are the two ends, and each of their
//! operations names the channel it acts on.

use vstd::prelude::*;

verus! {

/// The state that the two ends of a conflation channel share.
pub struct Channel<T: Copy> {
    key: u64,
    data: (T, T),
    dropped_sender: bool,
    ind: u8,
    num_receivers: u8,
    initial: Ghost<T>,
    sent: Ghost<Seq<T>>,
}

/// The writing end. It remembers which slot it fills next.
pub struct Sender<T: Copy> {
    ind: u8,
    marker: core::marker::PhantomData<T>,
}

/// A reading end. It names its channel by the channel's key.
pub struct Receiver<T: Copy> {
    key: u64,
    marker: core::marker::PhantomData<T>,
}

/// What a channel is, as far as its users can tell.
pub struct ChannelView<T> {
    /// The name under which a registry files the channel.
    pub key: u64,
    /// The value both slots held when the channel was made.
    pub initial: T,
    /// Every value sent so far, oldest first.
    pub sent: Seq<T>,
    /// The index of the published slot.
    pub published: int,
    /// How many reading ends are attached.
    pub receivers: int,
    /// Whether the writing end has been closed.
    pub closed: bool,
}

/// The values a reader can come across: the channel's initial value twice,
/// then every value sent, oldest first.
pub open spec fn observable<T>(initial: T, sent: Seq<T>) -> Seq<T> {
    seq![initial, initial] + sent
}

impl<T> ChannelView<T> {
    /// The most recent value: the last one sent, or the initial value.
    pub open spec fn latest(self) -> T {
        observable(self.initial, self.sent).last()
    }

    /// The value before the most recent one.
    pub open spec fn previous(self) -> T {
        let o = observable(self.initial, self.sent);
        o[o.len() - 2]
    }

    /// What slot `i` holds: the published slot the most recent value, the
    /// other slot the one before it.
    pub open spec fn slot(self, i: int) -> T {
        if i == self.published {
            self.latest()
        } else {
            self.previous()
        }
    }

    /// The channel after `data` was written to slot `cursor` and published.
    pub open spec fn after_send(self, data: T, cursor: int) -> ChannelView<T> {
        ChannelView { sent: self.sent.push(data), published: cursor, ..self }
    }

    /// The slot that the writer fills next: slot 0 first, then always the
    /// slot that is not published.
    pub open spec fn next_cursor(self) -> int {
        if self.sent.len() == 0 {
            0
        } else {
            1 - self.published
        }
    }

    /// The channel after the writer sent `data`.
    pub open spec fn after_next(self, data: T) -> ChannelView<T> {
        self.after_send(data, self.next_cursor())
    }

    /// The channel with `n` reading ends.
    pub open spec fn with_receivers(self, n: int) -> ChannelView<T> {
        ChannelView { receivers: n, ..self }
    }

    /// What a reader receives: nothing once the writer is gone, else the most
    /// recent value.
    pub open spec fn received(self) -> Option<T> {
        if self.closed {
            None
        } else {
            Some(self.latest())
        }
    }
}

impl<T: Copy> View for Channel<T> {
    type V = ChannelView<T>;

    closed spec fn view(&self) -> ChannelView<T> {
        ChannelView {
            key: self.key,
            initial: self.initial@,
            sent: self.sent@,
            published: self.ind as int,
            receivers: self.num_receivers as int,
            closed: self.dropped_sender,
        }
    }
}

impl<T: Copy> Channel<T> {
    closed spec fn stored(&self, i: int) -> T {
        if i == 0 {
            self.data.0
        } else {
            self.data.1
        }
    }

    /// The published slot holds the most recent value and the other slot the
    /// one before it; the count of reading ends fits its eight bits.
    #[verifier::type_invariant]
    pub closed spec fn wf(&self) -> bool {
        &&& self.ind < 2
        &&& self.stored(0) == self@.slot(0)
        &&& self.stored(1) == self@.slot(1)
    }

    /// Reads slot `i` whatever is published: what a reader finds that chose
    /// its slot just before the writer moved on.
    pub fn peek(&self, i: u8) -> (v: T)
        requires
            i < 2,
        ensures
            v == self@.slot(i as int),
            v == self@.latest() || v == self@.previous(),
    {
        proof {
            use_type_invariant(self);
        }
        if i == 0 {
            self.data.0
        } else {
            self.data.1
        }
    }

    /// The name under which a registry files this channel.
    pub fn key(&self) -> (k: u64)
        ensures
            k == self@.key,
    {
        self.key
    }

    /// The number of reading ends attached.
    pub fn num_receivers(&self) -> (n: u8)
        ensures
            n == self@.receivers,
    {
        self.num_receivers
    }

    /// Whether the writing end has been closed.
    pub fn is_closed(&self) -> (b: bool)
        ensures
            b == self@.closed,
    {
        self.dropped_sender
    }
}

impl<T: Copy> Sender<T> {
    /// The slot that the next `send` fills.
    pub closed spec fn cursor(&self) -> int {
        self.ind as int
    }

    /// This end is in step with a channel: before the first send both point at
    /// slot 0, afterwards this end points at the slot that is not published.
    pub open spec fn paired(&self, chan: ChannelView<T>) -> bool {
        if chan.sent.len() == 0 {
            self.cursor() == 0 && chan.published == 0
        } else {
            0 <= chan.published < 2 && self.cursor() == 1 - chan.published
        }
    }

    /// Overwrites the slot this end points at with `data`, publishes it and
    /// moves on to the other slot. Returns the number of reading ends, so that
    /// the writer learns when nobody listens any more.
    pub fn send(&mut self, chan: &mut Channel<T>, data: T) -> (n: u8)
        requires
            old(self).paired(old(chan)@),
        ensures
            final(chan)@ == old(chan)@.after_send(data, old(self).cursor()),
            final(chan)@ == old(chan)@.after_next(data),
            final(chan)@.latest() == data,
            final(chan)@.previous() == old(chan)@.latest(),
            final(self).cursor() == 1 - old(self).cursor(),
            final(self).paired(final(chan)@),
            n == old(chan)@.receivers,
    {
        proof {
            use_type_invariant(&*chan);
        }
        let ghost before = observable(chan.initial@, chan.sent@);
        let ghost after = observable(chan.initial@, chan.sent@.push(data));
        assert(after =~= before.push(data));
        let kept = chan.peek(chan.ind);
        let data_now = if self.ind == 0 {
            (data, kept)
        } else {
            (kept, data)
        };
        let n = chan.num_receivers;
        *chan = Channel {
            key: chan.key,
            data: data_now,
            dropped_sender: chan.dropped_sender,
            ind: self.ind,
            num_receivers: n,
            initial: chan.initial,
            sent: Ghost(chan.sent@.push(data)),
        };
        self.ind = (self.ind + 1) % 2;
        n
    }

    /// Closes the writing end: from now on every `recv` finds nothing.
    pub fn close(self, chan: &mut Channel<T>)
        ensures
            final(chan)@ == (ChannelView { closed: true, ..old(chan)@ }),
    {
        proof {
            use_type_invariant(&*chan);
        }
        *chan = Channel {
            key: chan.key,
            data: chan.data,
            dropped_sender: true,
            ind: chan.ind,
            num_receivers: chan.num_receivers,
            initial: chan.initial,
            sent: chan.sent,
        };
    }
}

impl<T: Copy> Receiver<T> {
    /// The key of the channel this end listens to.
    pub closed spec fn channel(&self) -> u64 {
        self.key
    }

    /// The key of the channel this end listens to.
    pub fn key(&self) -> (k: u64)
        ensures
            k == self.channel(),
    {
        self.key
    }

    /// A copy of the latest published value, or `None` once the writing end
    /// is closed. Never waits.
    pub fn recv(&self, chan: &Channel<T>) -> (r: Option<T>)
        ensures
            r == chan@.received(),
    {
        proof {
            use_type_invariant(chan);
        }
        if chan.dropped_sender {
            return None;
        }
        Some(chan.peek(chan.ind))
    }

    /// Attaches one more reading end. The count is eight bits wide and wraps.
    pub fn clone(&self, chan: &mut Channel<T>) -> (r: Receiver<T>)
        ensures
            final(chan)@ == old(chan)@.with_receivers((old(chan)@.receivers + 1) % 256),
            r.channel() == self.channel(),
    {
        proof {
            use_type_invariant(&*chan);
        }
        let n: u8 = if chan.num_receivers == u8::MAX {
            0
        } else {
            chan.num_receivers + 1
        };
        *chan = Channel {
            key: chan.key,
            data: chan.data,
            dropped_sender: chan.dropped_sender,
            ind: chan.ind,
            num_receivers: n,
            initial: chan.initial,
            sent: chan.sent,
        };
        Receiver { key: self.key, marker: core::marker::PhantomData }
    }

    /// Detaches this reading end. The count is eight bits wide and wraps.
    pub fn release(self, chan: &mut Channel<T>)
        ensures
            final(chan)@ == old(chan)@.with_receivers((old(chan)@.receivers - 1) % 256),
    {
        proof {
            use_type_invariant(&*chan);
        }
        let n: u8 = if chan.num_receivers == 0 {
            u8::MAX
        } else {
            chan.num_receivers - 1
        };
        *chan = Channel {
            key: chan.key,
            data: chan.data,
            dropped_sender: chan.dropped_sender,
            ind: chan.ind,
            num_receivers: n,
            initial: chan.initial,
            sent: chan.sent,
        };
    }
}

/// Makes a channel filed under `key`, whose slots both hold `T::default()`,
/// with its writing end and one reading end.
pub fn confchannel<T: Copy + Default>(key: u64) -> (r: (Channel<T>, Sender<T>, Receiver<T>))
    ensures
        r.0@.key == key,
        call_ensures(T::default, (), r.0@.initial),
        r.0@.sent == Seq::<T>::empty(),
        r.0@.published == 0,
        r.0@.receivers == 1,
        !r.0@.closed,
        r.1.cursor() == 0,
        r.1.paired(r.0@),
        r.2.channel() == key,
{
    let first = T::default();
    let chan = Channel {
        key,
        data: (first, first),
        dropped_sender: false,
        ind: 0,
        num_receivers: 1,
        initial: Ghost(first),
        sent: Ghost(Seq::empty()),
    };
    (chan, Sender { ind: 0, marker: core::marker::PhantomData }, Receiver {
        key,
        marker: core::marker::PhantomData,
    })
}

/// Whichever slot a reader reads, it finds one of the two values sent last
/// (the initial value standing in where fewer than two were sent).
pub proof fn lemma_read_is_recent<T>(chan: ChannelView<T>, i: int)
    ensures
        ({
            let o = observable(chan.initial, chan.sent);
            chan.slot(i) == o[o.len() - 1] || chan.slot(i) == o[o.len() - 2]
        }),
{
}

/// A value that was sent is what the next `recv` returns, as long as the
/// writing end is open.
pub proof fn lemma_send_then_recv<T>(chan: ChannelView<T>, data: T, cursor: int)
    requires
        !chan.closed,
    ensures
        chan.after_send(data, cursor).received() == Some(data),
{
    assert(observable(chan.initial, chan.sent.push(data)) =~= observable(
        chan.initial,
        chan.sent,
    ).push(data));
}

} // verus!
