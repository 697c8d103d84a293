//! The fan-out exchange: analyzer outputs on one side, subscribers on the other.
//!
//! Each analyzer has a list of conflation channels, one per subscriber. A
//! subscriber is handed the reading end of a fresh channel; the analyzer sends
//! every output down every channel of its list and drops the channels that
//! nobody reads any more.

pub mod confchannel;
pub mod detector;
pub mod msgs;
pub mod worker;

use vstd::prelude::*;
use crate::exchange::confchannel::{confchannel, Channel, ChannelView, Receiver, Sender};
use crate::exchange::msgs::{FacePosition, Luminosity};
use crate::exchange::worker::Worker;
use crate::narcissus::{Config, Narcissus};
use crate::videoq::{Ring, RingView, MAX_RECEIVERS};

verus! {

/// One subscriber's channel with its writing end.
struct Outlet<T: Copy> {
    chan: Channel<T>,
    sender: Sender<T>,
}

/// The channels of one analyzer's subscribers, oldest subscription first.
pub struct SubscriberList<T: Copy> {
    outlets: Vec<Outlet<T>>,
    next_key: u64,
}

spec fn views<T: Copy>(outlets: Seq<Outlet<T>>) -> Seq<ChannelView<T>> {
    Seq::new(outlets.len(), |i: int| outlets[i].chan@)
}

/// No two channels of `s` have the same key.
pub open spec fn distinct_keys<T>(s: Seq<ChannelView<T>>) -> bool {
    forall|i: int, j: int| 0 <= i < j < s.len() ==> s[i].key != s[j].key
}

/// Where in `s` the channel filed under `key` stands.
pub open spec fn position<T>(s: Seq<ChannelView<T>>, key: u64) -> Option<int> {
    if exists|i: int| 0 <= i < s.len() && s[i].key == key {
        Some(choose|i: int| 0 <= i < s.len() && s[i].key == key)
    } else {
        None
    }
}

/// The channels after one reading end of the channel filed under `key` was
/// given up. The count of reading ends is eight bits wide and wraps.
pub open spec fn released<T>(s: Seq<ChannelView<T>>, key: u64) -> Seq<ChannelView<T>> {
    match position(s, key) {
        Some(i) => s.update(i, s[i].with_receivers((s[i].receivers - 1) % 256)),
        None => s,
    }
}

/// The channels after `value` was sent down each of them and those without a
/// reading end were dropped. The order of the others is kept.
pub open spec fn published<T>(s: Seq<ChannelView<T>>, value: T) -> Seq<ChannelView<T>>
    decreases s.len(),
{
    if s.len() == 0 {
        Seq::empty()
    } else {
        let rest = published(s.drop_last(), value);
        if s.last().receivers != 0 {
            rest.push(s.last().after_next(value))
        } else {
            rest
        }
    }
}

impl<T: Copy> View for SubscriberList<T> {
    type V = Seq<ChannelView<T>>;

    closed spec fn view(&self) -> Seq<ChannelView<T>> {
        views(self.outlets@)
    }
}

impl<T: Copy> SubscriberList<T> {
    /// The key that the next subscription is filed under.
    pub closed spec fn next_key(&self) -> u64 {
        self.next_key
    }

    /// Every writing end is in step with its channel, no key occurs twice and
    /// every key in use lies below the next one to be given out.
    pub closed spec fn wf(&self) -> bool {
        &&& forall|i: int|
            0 <= i < self.outlets@.len() ==> (#[trigger] self.outlets@[i]).sender.paired(
                self.outlets@[i].chan@,
            )
        &&& distinct_keys(self@)
        &&& forall|i: int| 0 <= i < self@.len() ==> (#[trigger] self@[i]).key < self.next_key
    }

    /// What well-formedness says of the view.
    pub proof fn lemma_wf(&self)
        requires
            self.wf(),
        ensures
            distinct_keys(self@),
            forall|i: int| 0 <= i < self@.len() ==> (#[trigger] self@[i]).key < self.next_key(),
    {
    }

    /// A list without subscribers.
    pub fn new() -> (r: Self)
        ensures
            r.wf(),
            r@ == Seq::<ChannelView<T>>::empty(),
            r.next_key() == 0,
    {
        let r = SubscriberList { outlets: Vec::new(), next_key: 0 };
        proof {
            assert(r@ =~= Seq::<ChannelView<T>>::empty());
        }
        r
    }

    /// The number of channels in the list.
    pub fn len(&self) -> (n: usize)
        ensures
            n == self@.len(),
    {
        self.outlets.len()
    }

    /// Whether one more subscription can be filed.
    pub fn has_room(&self) -> (b: bool)
        ensures
            b == (self.next_key() < u64::MAX),
    {
        self.next_key < u64::MAX
    }

    /// Where the channel filed under `key` stands, if it is in the list.
    pub fn find(&self, key: u64) -> (r: Option<usize>)
        requires
            self.wf(),
        ensures
            match r {
                Some(i) => position(self@, key) == Some(i as int) && i < self@.len()
                    && self@[i as int].key == key,
                None => position(self@, key) is None,
            },
    {
        let mut i: usize = 0;
        while i < self.outlets.len()
            invariant
                self.wf(),
                i <= self.outlets@.len(),
                self@.len() == self.outlets@.len(),
                forall|j: int| 0 <= j < i ==> (#[trigger] self@[j]).key != key,
            decreases self.outlets@.len() - i,
        {
            if self.outlets[i].chan.key() == key {
                proof {
                    assert(self@[i as int].key == key);
                    let k = choose|k: int| 0 <= k < self@.len() && self@[k].key == key;
                    if k < i {
                        assert(self@[k].key != key);
                    }
                    if k > i {
                        assert(self@[i as int].key != self@[k].key);
                    }
                }
                return Some(i);
            }
            i += 1;
        }
        None
    }

    /// Files a fresh channel at the end of the list and hands out its reading
    /// end.
    pub fn subscribe(&mut self) -> (rx: Receiver<T>) where T: Default
        requires
            old(self).wf(),
            old(self).next_key() < u64::MAX,
        ensures
            final(self).wf(),
            final(self).next_key() == old(self).next_key() + 1,
            final(self)@.len() == old(self)@.len() + 1,
            final(self)@.drop_last() == old(self)@,
            final(self)@.last().key == old(self).next_key(),
            call_ensures(T::default, (), final(self)@.last().initial),
            final(self)@.last().sent == Seq::<T>::empty(),
            final(self)@.last().published == 0,
            final(self)@.last().receivers == 1,
            !final(self)@.last().closed,
            rx.channel() == old(self).next_key(),
            position(old(self)@, rx.channel()) is None,
    {
        let key = self.next_key;
        let (chan, sender, rx) = confchannel::<T>(key);
        let ghost before = self@;
        self.outlets.push(Outlet { chan, sender });
        self.next_key = key + 1;
        proof {
            assert(self@.drop_last() =~= before);
            assert(self@.last() == chan@);
            assert forall|i: int| 0 <= i < self@.len() implies (#[trigger] self@[i]).key
                < self.next_key by {
                if i < before.len() {
                    assert(self@[i] == before[i]);
                }
            }
            assert forall|i: int, j: int| 0 <= i < j < self@.len() implies self@[i].key
                != self@[j].key by {
                assert(self@[i] == before[i]);
                if j < before.len() {
                    assert(self@[j] == before[j]);
                }
            }
        }
        rx
    }

    /// Sends `value` down every channel, then drops the channels that no
    /// reading end is attached to. Returns whether the list held any channel.
    pub fn publish(&mut self, value: T) -> (had_subscribers: bool)
        requires
            old(self).wf(),
        ensures
            final(self).wf(),
            final(self).next_key() == old(self).next_key(),
            final(self)@ == published(old(self)@, value),
            had_subscribers == (old(self)@.len() > 0),
    {
        let mut all: Vec<Outlet<T>> = Vec::new();
        core::mem::swap(&mut self.outlets, &mut all);
        let had_subscribers = all.len() > 0;
        let ghost before = views(all@);
        let ghost origin: Seq<int> = Seq::empty();
        let ghost next_key = self.next_key;
        for outlet in it: all
            invariant
                before == views(it.seq()),
                next_key == self.next_key,
                forall|i: int|
                    0 <= i < it.seq().len() ==> (#[trigger] it.seq()[i]).sender.paired(
                        it.seq()[i].chan@,
                    ),
                distinct_keys(before),
                forall|i: int| 0 <= i < before.len() ==> (#[trigger] before[i]).key < next_key,
                self@ == published(before.take(it.index() as int), value),
                forall|i: int|
                    0 <= i < self.outlets@.len() ==> (#[trigger] self.outlets@[i]).sender.paired(
                        self.outlets@[i].chan@,
                    ),
                origin.len() == self@.len(),
                forall|i: int|
                    0 <= i < origin.len() ==> 0 <= #[trigger] origin[i] < it.index()
                        && self@[i].key == before[origin[i]].key,
                forall|i: int, j: int| 0 <= i < j < origin.len() ==> origin[i] < origin[j],
        {
            let ghost k = it.index() as int;
            let ghost kept = self@;
            proof {
                assert(before.take(k + 1).drop_last() =~= before.take(k));
                assert(before.take(k + 1).last() == before[k]);
                assert(before[k] == outlet.chan@);
            }
            let mut outlet = outlet;
            let n = outlet.sender.send(&mut outlet.chan, value);
            if n != 0 {
                self.outlets.push(outlet);
                proof {
                    origin = origin.push(k);
                    assert(self@ =~= kept.push(before[k].after_next(value)));
                }
            }
        }
        proof {
            assert(before.take(before.len() as int) =~= before);
            assert forall|i: int, j: int| 0 <= i < j < self@.len() implies self@[i].key
                != self@[j].key by {
                assert(origin[i] < origin[j]);
            }
            assert forall|i: int| 0 <= i < self@.len() implies (#[trigger] self@[i]).key
                < self.next_key by {
                assert(before[origin[i]].key < next_key);
            }
        }
        had_subscribers
    }

    /// What the reading end `rx` finds: the latest value of its channel, or
    /// nothing when the channel is closed or no longer in the list.
    pub fn recv(&self, rx: &Receiver<T>) -> (r: Option<T>)
        requires
            self.wf(),
        ensures
            r == (match position(self@, rx.channel()) {
                Some(i) => self@[i].received(),
                None => None,
            }),
    {
        match self.find(rx.key()) {
            Some(i) => rx.recv(&self.outlets[i].chan),
            None => None,
        }
    }

    /// Detaches the reading end `rx` from its channel. The channel stays in
    /// the list until the next `publish` finds it without a reading end.
    pub fn release(&mut self, rx: Receiver<T>)
        requires
            old(self).wf(),
        ensures
            final(self).wf(),
            final(self).next_key() == old(self).next_key(),
            final(self)@ == released(old(self)@, rx.channel()),
    {
        match self.find(rx.key()) {
            Some(i) => {
                let ghost before = self@;
                let ghost before_outlets = self.outlets@;
                let outlet = &mut self.outlets[i];
                rx.release(&mut outlet.chan);
                proof {
                    let after = before.update(
                        i as int,
                        before[i as int].with_receivers((before[i as int].receivers - 1) % 256),
                    );
                    assert(self@ =~= after);
                    assert forall|a: int, b: int| 0 <= a < b < self@.len() implies self@[a].key
                        != self@[b].key by {
                        assert(before[a].key != before[b].key);
                    }
                    assert forall|a: int| 0 <= a < self@.len() implies (#[trigger] self@[a]).key
                        < self.next_key by {
                        assert(before[a].key < self.next_key);
                    }
                    assert forall|a: int| 0 <= a < self.outlets@.len() implies (
                    #[trigger] self.outlets@[a]).sender.paired(self.outlets@[a].chan@) by {
                        assert(before_outlets[a].sender.paired(before_outlets[a].chan@));
                    }
                }
            },
            None => {},
        }
    }
}

/// After a broadcast no channel without a reading end is left in the list.
pub proof fn lemma_published_prunes<T>(s: Seq<ChannelView<T>>, value: T)
    ensures
        forall|i: int|
            0 <= i < published(s, value).len() ==> (#[trigger] published(s, value)[i]).receivers
                != 0,
        published(s, value).len() <= s.len(),
    decreases s.len(),
{
    if s.len() > 0 {
        lemma_published_prunes(s.drop_last(), value);
    }
}

/// The channel filed under `key` is in the list after a broadcast exactly if
/// it was there before with a reading end attached, and then `value` is the
/// latest thing sent down it.
pub proof fn lemma_published_keeps<T>(s: Seq<ChannelView<T>>, value: T, key: u64)
    requires
        distinct_keys(s),
    ensures
        distinct_keys(published(s, value)),
        forall|i: int|
            0 <= i < published(s, value).len() ==> exists|j: int|
                0 <= j < s.len() && s[j].receivers != 0 && #[trigger] published(s, value)[i]
                    == s[j].after_next(value),
        match position(s, key) {
            Some(j) => if s[j].receivers != 0 {
                position(published(s, value), key) matches Some(i) && published(s, value)[i]
                    == s[j].after_next(value)
            } else {
                position(published(s, value), key) is None
            },
            None => position(published(s, value), key) is None,
        },
    decreases s.len(),
{
    let b = published(s, value);
    if s.len() == 0 {
    } else {
        let head = s.drop_last();
        let rest = published(head, value);
        lemma_published_keeps(head, value, key);
        lemma_published_keeps(head, value, s.last().key);
        assert forall|i: int| 0 <= i < b.len() implies exists|j: int|
            0 <= j < s.len() && s[j].receivers != 0 && #[trigger] b[i] == s[j].after_next(
                value,
            ) by {
            if i < rest.len() {
                let j = choose|j: int|
                    0 <= j < head.len() && head[j].receivers != 0 && rest[i] == head[j].after_next(
                        value,
                    );
                assert(s[j] == head[j]);
                assert(b[i] == rest[i]);
            } else {
                assert(b[i] == s[s.len() - 1].after_next(value));
            }
        }
        // the last key does not occur among the others
        assert(position(head, s.last().key) is None) by {
            if exists|j: int| 0 <= j < head.len() && head[j].key == s.last().key {
                let j = choose|j: int| 0 <= j < head.len() && head[j].key == s.last().key;
                assert(s[j].key != s[s.len() - 1].key);
            }
        }
        assert(forall|i: int| 0 <= i < rest.len() ==> (#[trigger] rest[i]).key != s.last().key);
        assert(distinct_keys(b));
        match position(s, key) {
            Some(j) => {
                assert(s[j].key == key);
                if j == s.len() - 1 {
                    if s[j].receivers != 0 {
                        assert(b[b.len() - 1].key == key);
                        let i = choose|i: int| 0 <= i < b.len() && b[i].key == key;
                        if i != b.len() - 1 {
                            assert(b[i].key != b[b.len() - 1].key);
                        }
                    } else {
                        assert(b == rest);
                    }
                } else {
                    assert(head[j].key == key);
                    let jj = choose|jj: int| 0 <= jj < head.len() && head[jj].key == key;
                    if jj != j {
                        assert(s[jj].key != s[j].key);
                    }
                    if s[j].receivers != 0 {
                        let i0 = choose|i: int| 0 <= i < rest.len() && rest[i].key == key;
                        assert(b[i0] == rest[i0]);
                        let i = choose|i: int| 0 <= i < b.len() && b[i].key == key;
                        if i != i0 {
                            assert(b[i].key != b[i0].key);
                        }
                    } else {
                        if exists|i: int| 0 <= i < b.len() && b[i].key == key {
                            let i = choose|i: int| 0 <= i < b.len() && b[i].key == key;
                            if i < rest.len() {
                                assert(rest[i].key == key);
                            }
                        }
                    }
                }
            },
            None => {
                if exists|i: int| 0 <= i < head.len() && head[i].key == key {
                    let i = choose|i: int| 0 <= i < head.len() && head[i].key == key;
                    assert(s[i].key == key);
                }
                if exists|i: int| 0 <= i < b.len() && b[i].key == key {
                    let i = choose|i: int| 0 <= i < b.len() && b[i].key == key;
                    if i < rest.len() {
                        assert(rest[i].key == key);
                    } else {
                        assert(s[s.len() - 1].key == key);
                    }
                }
            },
        }
    }
}

/// Publishing is one pass over the list: the channels with a reading end are
/// kept, in their order, and each of them got `value` once; the others are
/// dropped.
pub proof fn lemma_published_is_one_pass<T>(s: Seq<ChannelView<T>>, value: T)
    ensures
        published(s, value) == s.filter(|c: ChannelView<T>| c.receivers != 0).map_values(
            |c: ChannelView<T>| c.after_next(value),
        ),
    decreases s.len(),
{
    let alive = |c: ChannelView<T>| c.receivers != 0;
    let sent = |c: ChannelView<T>| c.after_next(value);
    reveal(Seq::filter);
    if s.len() == 0 {
        assert(published(s, value) =~= s.filter(alive).map_values(sent));
    } else {
        let head = s.drop_last();
        lemma_published_is_one_pass(head, value);
        if s.last().receivers != 0 {
            assert(s.filter(alive) == head.filter(alive).push(s.last()));
            assert(head.filter(alive).push(s.last()).map_values(sent) =~= head.filter(
                alive,
            ).map_values(sent).push(s.last().after_next(value)));
        } else {
            assert(s.filter(alive) == head.filter(alive));
        }
    }
}

/// The channel at place `i` is the one filed under its key.
pub proof fn lemma_position<T>(s: Seq<ChannelView<T>>, i: int)
    requires
        distinct_keys(s),
        0 <= i < s.len(),
    ensures
        position(s, s[i].key) == Some(i),
{
    let j = choose|j: int| 0 <= j < s.len() && s[j].key == s[i].key;
    if j < i {
        assert(s[j].key != s[i].key);
    }
    if i < j {
        assert(s[i].key != s[j].key);
    }
}

/// Publishing keeps the order of the channels: of two channels that are in
/// the list afterwards, the one that stands first stood first before.
pub proof fn lemma_published_keeps_order<T>(s: Seq<ChannelView<T>>, value: T)
    requires
        distinct_keys(s),
    ensures
        forall|a: int, b: int|
            0 <= a < b < published(s, value).len() ==> {
                &&& position(s, (#[trigger] published(s, value)[a]).key) is Some
                &&& position(s, (#[trigger] published(s, value)[b]).key) is Some
                &&& position(s, published(s, value)[a].key).unwrap() < position(
                    s,
                    published(s, value)[b].key,
                ).unwrap()
            },
    decreases s.len(),
{
    let p = published(s, value);
    if s.len() > 0 {
        let head = s.drop_last();
        let rest = published(head, value);
        lemma_published_keeps_order(head, value);
        lemma_published_keeps(head, value, 0);
        // every channel of `rest` stands in `head`, at the place it has in `s`
        assert forall|a: int| 0 <= a < rest.len() implies position(s, (#[trigger] rest[a]).key)
            == position(head, rest[a].key) && position(head, rest[a].key) is Some && position(
            head,
            rest[a].key,
        ).unwrap() < head.len() by {
            let j = choose|j: int|
                0 <= j < head.len() && head[j].receivers != 0 && rest[a] == head[j].after_next(
                    value,
                );
            assert(head[j].key == rest[a].key);
            lemma_position(head, j);
            assert(s[j] == head[j]);
            lemma_position(s, j);
        }
        assert forall|a: int, b: int| 0 <= a < b < p.len() implies {
            &&& position(s, (#[trigger] p[a]).key) is Some
            &&& position(s, (#[trigger] p[b]).key) is Some
            &&& position(s, p[a].key).unwrap() < position(s, p[b].key).unwrap()
        } by {
            assert(p[a] == rest[a]);
            if b < rest.len() {
                assert(p[b] == rest[b]);
            } else {
                assert(p[b].key == s[s.len() - 1].key);
                lemma_position(s, s.len() - 1);
            }
        }
    }
}

/// A channel whose only reading end was given up is gone after the next
/// broadcast: nothing is filed under its key any more.
pub proof fn lemma_unsubscribe_prunes<T>(channels: Seq<ChannelView<T>>, key: u64, value: T)
    requires
        distinct_keys(channels),
        position(channels, key) matches Some(i) && channels[i].receivers == 1,
    ensures
        position(published(released(channels, key), value), key) is None,
{
    let i = position(channels, key).unwrap();
    let after = released(channels, key);
    assert(after[i].key == key && after[i].receivers == 0);
    assert forall|a: int, b: int| 0 <= a < b < after.len() implies after[a].key != after[b].key by {
        assert(channels[a].key != channels[b].key);
    }
    let j = choose|j: int| 0 <= j < after.len() && after[j].key == key;
    if j != i {
        if j < i {
            assert(after[j].key != after[i].key);
        } else {
            assert(after[i].key != after[j].key);
        }
    }
    lemma_published_keeps(after, value, key);
}

/// The exchange: the configuration, a reading end of the frame ring, and the
/// subscriber lists of the two analyzers.
pub struct Exchange {
    receiver: crate::videoq::Receiver,
    n: Narcissus,
    faceposition_senders: SubscriberList<FacePosition>,
    luminosity_senders: SubscriberList<Luminosity>,
}

impl Exchange {
    /// The channels of the face-position subscribers.
    pub closed spec fn faceposition(&self) -> Seq<ChannelView<FacePosition>> {
        self.faceposition_senders@
    }

    /// The channels of the luminosity subscribers.
    pub closed spec fn luminosity(&self) -> Seq<ChannelView<Luminosity>> {
        self.luminosity_senders@
    }

    /// The key that the next face-position subscription is filed under.
    pub closed spec fn faceposition_next_key(&self) -> u64 {
        self.faceposition_senders.next_key()
    }

    /// The key that the next luminosity subscription is filed under.
    pub closed spec fn luminosity_next_key(&self) -> u64 {
        self.luminosity_senders.next_key()
    }

    /// The settings the exchange was made with.
    pub closed spec fn settings(&self) -> Config {
        self.n.config
    }

    /// The settings the exchange was made with.
    pub fn config(&self) -> (c: &Config)
        ensures
            *c == self.settings(),
    {
        &self.n.config
    }

    /// Ends the exchange: gives its reading end of the ring back. Its
    /// channels go with it.
    pub fn close(self, ring: &mut Ring)
        requires
            old(ring).wf(),
        ensures
            final(ring).wf(),
            final(ring)@ == (RingView {
                receivers: if old(ring)@.receivers > 0 {
                    (old(ring)@.receivers - 1) as nat
                } else {
                    0
                },
                ..old(ring)@
            }),
    {
        let Exchange { receiver, .. } = self;
        receiver.release(ring);
    }

    /// Both subscriber lists hold the same channels as those of `other`, and
    /// the next subscriptions are filed under the same keys.
    pub open spec fn same_lists(&self, other: &Exchange) -> bool {
        &&& self.faceposition() == other.faceposition()
        &&& self.luminosity() == other.luminosity()
        &&& self.faceposition_next_key() == other.faceposition_next_key()
        &&& self.luminosity_next_key() == other.luminosity_next_key()
    }

    /// Both subscriber lists are well-formed.
    pub closed spec fn wf(&self) -> bool {
        &&& self.faceposition_senders.wf()
        &&& self.luminosity_senders.wf()
    }

    /// In a well-formed exchange no key occurs twice in a list.
    pub proof fn lemma_wf(&self)
        requires
            self.wf(),
        ensures
            distinct_keys(self.faceposition()),
            distinct_keys(self.luminosity()),
    {
        self.faceposition_senders.lemma_wf();
        self.luminosity_senders.lemma_wf();
    }

    /// An exchange without subscribers, with one worker for each analyzer.
    /// Each worker gets a reading end of its own on the ring.
    pub fn new(n: Narcissus, receiver: crate::videoq::Receiver, ring: &mut Ring) -> (r: (
        Exchange,
        Worker<FacePosition>,
        Worker<Luminosity>,
    ))
        requires
            old(ring).wf(),
            old(ring)@.receivers + 2 <= MAX_RECEIVERS,
        ensures
            final(ring).wf(),
            final(ring)@ == (RingView { receivers: old(ring)@.receivers + 2, ..old(ring)@ }),
            r.0.wf(),
            r.0.settings() == n.config,
            r.0.faceposition() == Seq::<ChannelView<FacePosition>>::empty(),
            r.0.luminosity() == Seq::<ChannelView<Luminosity>>::empty(),
            r.0.faceposition_next_key() == 0,
            r.0.luminosity_next_key() == 0,
            r.1.wf() && r.1.idle() && r.1.pending() is None && r.1.seen() == receiver.seen(),
            r.1.output() == (FacePosition { timestamp: 0, bottom_left: (0, 0), top_right: (0, 0) }),
            r.2.wf() && r.2.idle() && r.2.pending() is None && r.2.seen() == receiver.seen(),
            r.2.output() == (Luminosity {
                timestamp: 0,
                average: 0,
                standard_deviation: 0,
                max: 0,
                min: 0,
            }),
    {
        let for_faces = receiver.clone(ring).unwrap();
        let for_light = receiver.clone(ring).unwrap();
        let faces = Worker::new(for_faces, FacePosition::default());
        let light = Worker::new(for_light, Luminosity::default());
        let exchange = Exchange {
            receiver,
            n,
            faceposition_senders: SubscriberList::new(),
            luminosity_senders: SubscriberList::new(),
        };
        (exchange, faces, light)
    }

    /// Whether one more subscription of each kind can be filed.
    pub fn has_room(&self) -> (b: bool)
        ensures
            b == (self.faceposition_next_key() < u64::MAX && self.luminosity_next_key()
                < u64::MAX),
    {
        self.faceposition_senders.has_room() && self.luminosity_senders.has_room()
    }

    /// Opens a stream of face positions: a fresh channel joins the list and
    /// its reading end is handed out.
    pub fn subscribe_faceposition(&mut self) -> (rx: Receiver<FacePosition>)
        requires
            old(self).wf(),
            old(self).faceposition_next_key() < u64::MAX,
        ensures
            final(self).wf(),
            final(self).luminosity() == old(self).luminosity(),
            final(self).luminosity_next_key() == old(self).luminosity_next_key(),
            final(self).faceposition_next_key() == old(self).faceposition_next_key() + 1,
            final(self).faceposition().len() == old(self).faceposition().len() + 1,
            final(self).faceposition().drop_last() == old(self).faceposition(),
            final(self).faceposition().last().key == rx.channel(),
            final(self).faceposition().last().initial == (FacePosition {
                timestamp: 0,
                bottom_left: (0, 0),
                top_right: (0, 0),
            }),
            final(self).faceposition().last().sent == Seq::<FacePosition>::empty(),
            final(self).faceposition().last().receivers == 1,
            !final(self).faceposition().last().closed,
            rx.channel() == old(self).faceposition_next_key(),
            position(old(self).faceposition(), rx.channel()) is None,
    {
        self.faceposition_senders.subscribe()
    }

    /// Opens a stream of luminosity values: a fresh channel joins the list and
    /// its reading end is handed out.
    pub fn subscribe_luminosity(&mut self) -> (rx: Receiver<Luminosity>)
        requires
            old(self).wf(),
            old(self).luminosity_next_key() < u64::MAX,
        ensures
            final(self).wf(),
            final(self).faceposition() == old(self).faceposition(),
            final(self).faceposition_next_key() == old(self).faceposition_next_key(),
            final(self).luminosity_next_key() == old(self).luminosity_next_key() + 1,
            final(self).luminosity().len() == old(self).luminosity().len() + 1,
            final(self).luminosity().drop_last() == old(self).luminosity(),
            final(self).luminosity().last().key == rx.channel(),
            final(self).luminosity().last().initial == (Luminosity {
                timestamp: 0,
                average: 0,
                standard_deviation: 0,
                max: 0,
                min: 0,
            }),
            final(self).luminosity().last().sent == Seq::<Luminosity>::empty(),
            final(self).luminosity().last().receivers == 1,
            !final(self).luminosity().last().closed,
            rx.channel() == old(self).luminosity_next_key(),
            position(old(self).luminosity(), rx.channel()) is None,
    {
        self.luminosity_senders.subscribe()
    }

    /// Opens a pass of the face worker on this exchange's list.
    pub fn publish_faceposition(&mut self, worker: &mut Worker<FacePosition>) -> (busy: bool)
        requires
            old(self).wf(),
        ensures
            final(self).wf(),
            final(self).luminosity() == old(self).luminosity(),
            final(self).luminosity_next_key() == old(self).luminosity_next_key(),
            final(self).faceposition_next_key() == old(self).faceposition_next_key(),
            final(self).faceposition() == published(old(self).faceposition(), old(worker).output()),
            busy == (old(self).faceposition().len() > 0),
            final(worker).idle() == !busy,
            final(worker).output() == old(worker).output(),
            final(worker).pending() == old(worker).pending(),
            final(worker).seen() == old(worker).seen(),
    {
        worker.broadcast(&mut self.faceposition_senders)
    }

    /// Opens a pass of the luminosity worker on this exchange's list.
    pub fn publish_luminosity(&mut self, worker: &mut Worker<Luminosity>) -> (busy: bool)
        requires
            old(self).wf(),
        ensures
            final(self).wf(),
            final(self).faceposition() == old(self).faceposition(),
            final(self).faceposition_next_key() == old(self).faceposition_next_key(),
            final(self).luminosity_next_key() == old(self).luminosity_next_key(),
            final(self).luminosity() == published(old(self).luminosity(), old(worker).output()),
            busy == (old(self).luminosity().len() > 0),
            final(worker).idle() == !busy,
            final(worker).output() == old(worker).output(),
            final(worker).pending() == old(worker).pending(),
            final(worker).seen() == old(worker).seen(),
    {
        worker.broadcast(&mut self.luminosity_senders)
    }

    /// What the reading end `rx` of a face-position stream finds.
    pub fn recv_faceposition(&self, rx: &Receiver<FacePosition>) -> (r: Option<FacePosition>)
        requires
            self.wf(),
        ensures
            r == (match position(self.faceposition(), rx.channel()) {
                Some(i) => self.faceposition()[i].received(),
                None => None,
            }),
    {
        self.faceposition_senders.recv(rx)
    }

    /// What the reading end `rx` of a luminosity stream finds.
    pub fn recv_luminosity(&self, rx: &Receiver<Luminosity>) -> (r: Option<Luminosity>)
        requires
            self.wf(),
        ensures
            r == (match position(self.luminosity(), rx.channel()) {
                Some(i) => self.luminosity()[i].received(),
                None => None,
            }),
    {
        self.luminosity_senders.recv(rx)
    }

    /// Gives up the reading end `rx` of a face-position stream.
    pub fn release_faceposition(&mut self, rx: Receiver<FacePosition>)
        requires
            old(self).wf(),
        ensures
            final(self).wf(),
            final(self).luminosity() == old(self).luminosity(),
            final(self).luminosity_next_key() == old(self).luminosity_next_key(),
            final(self).faceposition_next_key() == old(self).faceposition_next_key(),
            final(self).faceposition() == released(old(self).faceposition(), rx.channel()),
    {
        self.faceposition_senders.release(rx)
    }

    /// Gives up the reading end `rx` of a luminosity stream.
    pub fn release_luminosity(&mut self, rx: Receiver<Luminosity>)
        requires
            old(self).wf(),
        ensures
            final(self).wf(),
            final(self).faceposition() == old(self).faceposition(),
            final(self).faceposition_next_key() == old(self).faceposition_next_key(),
            final(self).luminosity_next_key() == old(self).luminosity_next_key(),
            final(self).luminosity() == released(old(self).luminosity(), rx.channel()),
    {
        self.luminosity_senders.release(rx)
    }
}

} // verus!
