//! The analyzer workers, one pass at a time.
//!
//! A worker publishes its last output, pulls the next frame and computes a new
//! output from it. Each of these is one call here; whoever drives the worker
//! waits between the calls for as long as the worker says, and holds the
//! subscriber list and the ring only for the call that names them.

use vstd::prelude::*;
use crate::exchange::msgs::{FacePosition, Luminosity};
use crate::exchange::confchannel::ChannelView;
use crate::exchange::{published, SubscriberList};
use crate::videoq::{Receiver, Ring};

verus! {

/// How long a worker without subscribers waits before its next pass, in
/// milliseconds.
pub const PARK_MILLIS: u64 = 1000;

/// How long a worker waits for a new frame before it asks again, in
/// milliseconds.
pub const RETRY_MILLIS: u64 = 20;

/// A value that carries the timestamp of the frame it was computed from.
pub trait Stamped: Copy {
    /// The timestamp of the frame.
    spec fn stamp(&self) -> u64;

    /// The timestamp of the frame.
    fn timestamp(&self) -> (t: u64)
        ensures
            t == self.stamp(),
    ;
}

impl Stamped for FacePosition {
    open spec fn stamp(&self) -> u64 {
        self.timestamp
    }

    fn timestamp(&self) -> (t: u64) {
        self.timestamp
    }
}

impl Stamped for Luminosity {
    open spec fn stamp(&self) -> u64 {
        self.timestamp
    }

    fn timestamp(&self) -> (t: u64) {
        self.timestamp
    }
}

/// The brightness plane of a YUYV frame: every other byte, from the first.
pub open spec fn luma_of(frame: Seq<u8>) -> Seq<u8> {
    Seq::new(((frame.len() + 1) / 2) as nat, |i: int| frame[2 * i])
}

/// Copies the brightness plane out of a YUYV frame.
pub fn luma(frame: &[u8]) -> (plane: Vec<u8>)
    ensures
        plane@ == luma_of(frame@),
{
    let mut plane: Vec<u8> = Vec::new();
    let mut i: usize = 0;
    while i < frame.len()
        invariant
            i % 2 == 0,
            i <= frame@.len() + 1,
            plane@.len() == i / 2,
            forall|j: int| 0 <= j < plane@.len() ==> plane@[j] == frame@[2 * j],
        decreases frame@.len() + 1 - i,
    {
        plane.push(frame[i]);
        if frame.len() - i < 2 {
            i = i + 1;
            proof {
                assert(plane@ =~= luma_of(frame@));
            }
            return plane;
        }
        i = i + 2;
    }
    proof {
        assert(plane@ =~= luma_of(frame@));
    }
    plane
}

/// The brightest byte of a plane, if the plane has any.
pub fn luma_max(plane: &[u8]) -> (m: Option<u8>)
    ensures
        plane@.len() == 0 <==> m is None,
        m matches Some(v) ==> plane@.contains(v) && forall|i: int|
            0 <= i < plane@.len() ==> plane@[i] <= v,
{
    if plane.len() == 0 {
        return None;
    }
    let mut best: u8 = plane[0];
    let mut i: usize = 1;
    while i < plane.len()
        invariant
            1 <= i <= plane@.len(),
            exists|k: int| 0 <= k < i && plane@[k] == best,
            forall|j: int| 0 <= j < i ==> plane@[j] <= best,
        decreases plane@.len() - i,
    {
        if plane[i] > best {
            best = plane[i];
        }
        i += 1;
    }
    Some(best)
}

/// The darkest byte of a plane, if the plane has any.
pub fn luma_min(plane: &[u8]) -> (m: Option<u8>)
    ensures
        plane@.len() == 0 <==> m is None,
        m matches Some(v) ==> plane@.contains(v) && forall|i: int|
            0 <= i < plane@.len() ==> plane@[i] >= v,
{
    if plane.len() == 0 {
        return None;
    }
    let mut best: u8 = plane[0];
    let mut i: usize = 1;
    while i < plane.len()
        invariant
            1 <= i <= plane@.len(),
            exists|k: int| 0 <= k < i && plane@[k] == best,
            forall|j: int| 0 <= j < i ==> plane@[j] >= best,
        decreases plane@.len() - i,
    {
        if plane[i] < best {
            best = plane[i];
        }
        i += 1;
    }
    Some(best)
}

/// The bit pattern of the single-precision number that equals `v`: nothing
/// for zero; else the exponent of the highest bit of `v`, and the bits below
/// it at the top of the fraction.
pub open spec fn single_bits(v: u8) -> u32 {
    if v >= 128 {
        (133 * 0x80_0000 + v * 0x1_0000) as u32
    } else if v >= 64 {
        (132 * 0x80_0000 + v * 0x2_0000) as u32
    } else if v >= 32 {
        (131 * 0x80_0000 + v * 0x4_0000) as u32
    } else if v >= 16 {
        (130 * 0x80_0000 + v * 0x8_0000) as u32
    } else if v >= 8 {
        (129 * 0x80_0000 + v * 0x10_0000) as u32
    } else if v >= 4 {
        (128 * 0x80_0000 + v * 0x20_0000) as u32
    } else if v >= 2 {
        (127 * 0x80_0000 + v * 0x40_0000) as u32
    } else if v >= 1 {
        (126 * 0x80_0000 + v * 0x80_0000) as u32
    } else {
        0
    }
}

/// The bit pattern of the single-precision number that equals `v`.
pub fn single_from_u8(v: u8) -> (bits: u32)
    ensures
        bits == single_bits(v),
{
    let wide = v as u32;
    if v >= 128 {
        133 * 0x80_0000 + wide * 0x1_0000
    } else if v >= 64 {
        132 * 0x80_0000 + wide * 0x2_0000
    } else if v >= 32 {
        131 * 0x80_0000 + wide * 0x4_0000
    } else if v >= 16 {
        130 * 0x80_0000 + wide * 0x8_0000
    } else if v >= 8 {
        129 * 0x80_0000 + wide * 0x10_0000
    } else if v >= 4 {
        128 * 0x80_0000 + wide * 0x20_0000
    } else if v >= 2 {
        127 * 0x80_0000 + wide * 0x40_0000
    } else if v >= 1 {
        126 * 0x80_0000 + wide * 0x80_0000
    } else {
        0
    }
}

/// A box that a face detector reports. Its corner may lie outside the frame,
/// left of or above the origin.
#[derive(Clone, Copy, Debug, PartialEq, Eq)]
pub struct BoundingBox {
    pub x: i32,
    pub y: i32,
    pub width: u32,
    pub height: u32,
}

/// A coordinate, pulled back to the frame's edge where it is negative.
pub open spec fn clamped(v: i32) -> int {
    if v > 0 {
        v as int
    } else {
        0
    }
}

impl BoundingBox {
    /// The number of pixels the box covers.
    pub open spec fn area(self) -> int {
        self.width * self.height
    }

    /// Both corners of the clamped box can be written as frame coordinates.
    pub open spec fn fits(self) -> bool {
        &&& clamped(self.x) + self.width <= u32::MAX
        &&& clamped(self.y) + self.height <= u32::MAX
    }

    /// Whether both corners of the clamped box can be written as frame
    /// coordinates.
    pub fn is_representable(&self) -> (b: bool)
        ensures
            b == self.fits(),
    {
        let x: u64 = if self.x > 0 {
            self.x as u64
        } else {
            0
        };
        let y: u64 = if self.y > 0 {
            self.y as u64
        } else {
            0
        };
        x + self.width as u64 <= u32::MAX as u64 && y + self.height as u64 <= u32::MAX as u64
    }
}

/// Box `i` covers some pixels, no box covers more, and no earlier box covers
/// as many.
pub open spec fn is_largest(faces: Seq<BoundingBox>, i: int) -> bool {
    &&& 0 <= i < faces.len()
    &&& faces[i].area() > 0
    &&& forall|j: int| 0 <= j < faces.len() ==> #[trigger] faces[j].area() <= faces[i].area()
    &&& forall|j: int| 0 <= j < i ==> #[trigger] faces[j].area() < faces[i].area()
}

/// The first of the boxes that cover the most pixels, unless none covers any.
pub open spec fn largest(faces: Seq<BoundingBox>) -> Option<int> {
    if exists|i: int| is_largest(faces, i) {
        Some(choose|i: int| is_largest(faces, i))
    } else {
        None
    }
}

/// There is at most one largest box.
pub proof fn lemma_largest_unique(faces: Seq<BoundingBox>, i: int)
    requires
        is_largest(faces, i),
    ensures
        largest(faces) == Some(i),
{
    let k = choose|k: int| is_largest(faces, k);
    if k < i {
        assert(faces[k].area() < faces[i].area());
        assert(faces[i].area() <= faces[k].area());
    }
    if i < k {
        assert(faces[i].area() < faces[k].area());
        assert(faces[k].area() <= faces[i].area());
    }
}

/// Finds the first of the boxes that cover the most pixels.
pub fn largest_face(faces: &Vec<BoundingBox>) -> (r: Option<usize>)
    ensures
        r == (match largest(faces@) {
            Some(i) => Some(i as usize),
            None => None,
        }),
        r matches Some(i) ==> is_largest(faces@, i as int),
        r is None ==> forall|j: int| 0 <= j < faces@.len() ==> #[trigger] faces@[j].area() == 0,
{
    let mut best: Option<usize> = None;
    let mut size: u64 = 0;
    let mut i: usize = 0;
    while i < faces.len()
        invariant
            i <= faces@.len(),
            forall|j: int| 0 <= j < i ==> #[trigger] faces@[j].area() <= size,
            match best {
                Some(b) => {
                    &&& b < i
                    &&& size == faces@[b as int].area()
                    &&& size > 0
                    &&& forall|j: int| 0 <= j < b ==> #[trigger] faces@[j].area() < size
                },
                None => size == 0,
            },
        decreases faces@.len() - i,
    {
        let w = faces[i].width as u64;
        let h = faces[i].height as u64;
        assert(w * h <= 0xffff_ffff * 0xffff_ffff) by (nonlinear_arith)
            requires
                w <= 0xffff_ffff,
                h <= 0xffff_ffff,
        ;
        let a = w * h;
        if a > size {
            best = Some(i);
            size = a;
        }
        i += 1;
    }
    proof {
        match best {
            Some(b) => {
                lemma_largest_unique(faces@, b as int);
            },
            None => {
                assert forall|k: int| !is_largest(faces@, k) by {
                    if 0 <= k < faces@.len() {
                        assert(faces@[k].area() <= 0);
                    }
                }
            },
        }
    }
    best
}

/// The face position that follows `previous` once the frame stamped
/// `timestamp` was searched and `faces` were found in it. Where no face was
/// found nothing changes; else the new timestamp is taken, and the corners of
/// the largest box, clamped to the frame, where a box covers any pixel.
pub open spec fn face_output(previous: FacePosition, timestamp: u64, faces: Seq<BoundingBox>)
    -> FacePosition {
    if faces.len() == 0 {
        previous
    } else {
        match largest(faces) {
            Some(i) => FacePosition {
                timestamp,
                bottom_left: (clamped(faces[i].x) as u32, clamped(faces[i].y) as u32),
                top_right: (
                    (clamped(faces[i].x) + faces[i].width) as u32,
                    (clamped(faces[i].y) + faces[i].height) as u32,
                ),
            },
            None => FacePosition { timestamp, ..previous },
        }
    }
}

/// Computes the face position that follows `previous`.
pub fn locate_face(previous: FacePosition, timestamp: u64, faces: &Vec<BoundingBox>) -> (r:
    FacePosition)
    requires
        forall|i: int| 0 <= i < faces@.len() ==> (#[trigger] faces@[i]).fits(),
    ensures
        r == face_output(previous, timestamp, faces@),
{
    if faces.len() == 0 {
        return previous;
    }
    match largest_face(faces) {
        Some(i) => {
            let b = faces[i];
            assert(b.fits());
            let x: u32 = if b.x > 0 {
                b.x as u32
            } else {
                0
            };
            let y: u32 = if b.y > 0 {
                b.y as u32
            } else {
                0
            };
            FacePosition {
                timestamp,
                bottom_left: (x, y),
                top_right: (x + b.width, y + b.height),
            }
        },
        None => FacePosition {
            timestamp,
            bottom_left: previous.bottom_left,
            top_right: previous.top_right,
        },
    }
}

/// One analyzer: its reading end of the frame ring, its last output, and
/// where it stands in its pass.
pub struct Worker<T: Stamped> {
    receiver: Receiver,
    output: T,
    no_subscribers: bool,
    pending: Option<u64>,
}

/// What a worker found when it asked the ring for a frame.
#[derive(Debug, PartialEq, Eq)]
pub enum Pull {
    /// The camera is gone: the worker ends.
    Closed,
    /// Nothing new to analyze: wait `RETRY_MILLIS` and start the next pass.
    Retry,
    /// A frame to analyze: its timestamp and its brightness plane.
    Luma { timestamp: u64, plane: Vec<u8> },
}

impl<T: Stamped> Worker<T> {
    /// The last output computed.
    pub closed spec fn output(&self) -> T {
        self.output
    }

    /// Whether the worker found no subscriber on its last pass.
    pub closed spec fn idle(&self) -> bool {
        self.no_subscribers
    }

    /// The timestamp of the frame that is being analyzed, if one is.
    pub closed spec fn pending(&self) -> Option<u64> {
        self.pending
    }

    /// The timestamp of the newest frame the worker was handed, if any.
    pub closed spec fn seen(&self) -> Option<u64> {
        self.receiver.seen()
    }

    /// The output is no newer than the newest frame handed to the worker, and
    /// a frame under analysis is that newest frame and newer than the output.
    pub open spec fn wf(&self) -> bool {
        &&& match self.seen() {
            Some(t) => self.output().stamp() <= t,
            None => self.output().stamp() == 0,
        }
        &&& self.pending() matches Some(p) ==> self.seen() == Some(p) && self.output().stamp()
            < p
    }

    /// A worker that reads frames through `receiver` and starts from the
    /// output `initial`. It counts as having no subscribers until its first
    /// pass says otherwise.
    pub fn new(receiver: Receiver, initial: T) -> (w: Self)
        requires
            match receiver.seen() {
                Some(t) => initial.stamp() <= t,
                None => initial.stamp() == 0,
            },
        ensures
            w.wf(),
            w.output() == initial,
            w.idle(),
            w.pending() is None,
            w.seen() == receiver.seen(),
    {
        Worker { receiver, output: initial, no_subscribers: true, pending: None }
    }

    /// The last output computed.
    pub fn last_output(&self) -> (v: T)
        ensures
            v == self.output(),
    {
        self.output
    }

    /// How long to wait before the next pass, in milliseconds: a while when
    /// the last pass found no subscriber, else not at all.
    pub fn park_millis(&self) -> (ms: u64)
        ensures
            ms == (if self.idle() {
                PARK_MILLIS
            } else {
                0
            }),
    {
        if self.no_subscribers {
            PARK_MILLIS
        } else {
            0
        }
    }

    /// Opens a pass: sends the last output to every subscriber and drops the
    /// channels that nobody reads. Returns whether there is anybody to work
    /// for; if not, the pass ends here.
    pub fn broadcast(&mut self, senders: &mut SubscriberList<T>) -> (busy: bool)
        requires
            old(senders).wf(),
        ensures
            final(senders).wf(),
            final(senders).next_key() == old(senders).next_key(),
            final(senders)@ == crate::exchange::published(old(senders)@, old(self).output()),
            busy == (old(senders)@.len() > 0),
            final(self).idle() == !busy,
            final(self).output() == old(self).output(),
            final(self).pending() == old(self).pending(),
            final(self).seen() == old(self).seen(),
    {
        let busy = senders.publish(self.output);
        self.no_subscribers = !busy;
        busy
    }

    /// Asks the ring for a frame that is newer than every frame seen so far.
    /// A frame with the timestamp of the last output counts as analyzed
    /// already. The frame is held only while its brightness plane is copied.
    pub fn pull(&mut self, ring: &mut Ring) -> (r: Pull)
        requires
            old(self).wf(),
            old(ring).wf(),
        ensures
            final(self).wf(),
            final(ring).wf(),
            final(ring)@ == old(ring)@,
            final(self).output() == old(self).output(),
            final(self).idle() == old(self).idle(),
            !old(ring)@.open ==> r is Closed && final(self).seen() == old(self).seen()
                && final(self).pending() == old(self).pending(),
            old(ring)@.open && !old(ring)@.has_news_for(old(self).seen()) ==> r is Retry
                && final(self).seen() == old(self).seen() && final(self).pending() == old(
                self,
            ).pending(),
            old(ring)@.open && old(ring)@.has_news_for(old(self).seen()) ==> {
                &&& final(self).seen() == Some(old(ring)@.newest())
                &&& if old(ring)@.newest() == old(self).output().stamp() {
                    r is Retry && final(self).pending() is None
                } else {
                    &&& r matches Pull::Luma { timestamp, plane }
                    &&& timestamp == old(ring)@.newest()
                    &&& plane@ == luma_of(old(ring)@.slots[old(ring)@.current].data)
                    &&& final(self).pending() == Some(timestamp)
                }
            },
    {
        let ghost before = ring@;
        proof {
            ring.lemma_view_wf();
        }
        match self.receiver.recv(ring) {
            Err(_) => Pull::Closed,
            Ok(None) => Pull::Retry,
            Ok(Some((frame, timestamp))) => {
                if timestamp == self.output.timestamp() {
                    frame.release(ring);
                    proof {
                        assert(ring@.slots =~= before.slots);
                    }
                    self.pending = None;
                    Pull::Retry
                } else {
                    let plane = luma(frame.bytes(ring));
                    frame.release(ring);
                    proof {
                        assert(ring@.slots =~= before.slots);
                    }
                    self.pending = Some(timestamp);
                    Pull::Luma { timestamp, plane }
                }
            },
        }
    }

    /// Ends the worker: gives its reading end of the ring back.
    pub fn close(self, ring: &mut Ring)
        requires
            old(ring).wf(),
        ensures
            final(ring).wf(),
            final(ring)@ == (crate::videoq::RingView {
                receivers: if old(ring)@.receivers > 0 {
                    (old(ring)@.receivers - 1) as nat
                } else {
                    0
                },
                ..old(ring)@
            }),
    {
        let Worker { receiver, .. } = self;
        receiver.release(ring);
    }
}

/// Closes the pass of the face worker: the frame under analysis was searched
/// and `faces` were found in it. Without a frame under analysis nothing
/// changes. The output's timestamp never goes back.
pub fn faceposition(worker: &mut Worker<FacePosition>, faces: &Vec<BoundingBox>)
    requires
        old(worker).wf(),
        forall|i: int| 0 <= i < faces@.len() ==> (#[trigger] faces@[i]).fits(),
    ensures
        final(worker).wf(),
        final(worker).output() == (match old(worker).pending() {
            Some(timestamp) => face_output(old(worker).output(), timestamp, faces@),
            None => old(worker).output(),
        }),
        final(worker).output().timestamp >= old(worker).output().timestamp,
        final(worker).pending() is None,
        final(worker).idle() == old(worker).idle(),
        final(worker).seen() == old(worker).seen(),
{
    match worker.pending {
        Some(timestamp) => {
            worker.output = locate_face(worker.output, timestamp, faces);
            worker.pending = None;
        },
        None => {},
    }
}

/// The greatest element of a plane that has one.
pub open spec fn greatest(plane: Seq<u8>) -> u8 {
    choose|v: u8| plane.contains(v) && forall|i: int| 0 <= i < plane.len() ==> plane[i] <= v
}

/// The least element of a plane that has one.
pub open spec fn least(plane: Seq<u8>) -> u8 {
    choose|v: u8| plane.contains(v) && forall|i: int| 0 <= i < plane.len() ==> plane[i] >= v
}

/// The brightness statistics that follow `previous` once the frame stamped
/// `timestamp` was measured: the new mean and deviation, as they were
/// computed from the plane, and the extremes of the plane as single-precision
/// numbers. An empty plane has no extremes and leaves the old ones.
pub open spec fn luminosity_output(
    previous: Luminosity,
    timestamp: u64,
    plane: Seq<u8>,
    average: u32,
    standard_deviation: u32,
) -> Luminosity {
    Luminosity {
        timestamp,
        average,
        standard_deviation,
        max: if plane.len() > 0 {
            single_bits(greatest(plane))
        } else {
            previous.max
        },
        min: if plane.len() > 0 {
            single_bits(least(plane))
        } else {
            previous.min
        },
    }
}

/// Closes the pass of the luminosity worker: the brightness plane of the
/// frame under analysis was measured, and `average` and `standard_deviation`
/// are the bit patterns of its mean and deviation. Without a frame under
/// analysis nothing changes. The output's timestamp never goes back.
pub fn luminosity(
    worker: &mut Worker<Luminosity>,
    plane: &[u8],
    average: u32,
    standard_deviation: u32,
)
    requires
        old(worker).wf(),
    ensures
        final(worker).wf(),
        final(worker).output() == (match old(worker).pending() {
            Some(timestamp) => luminosity_output(
                old(worker).output(),
                timestamp,
                plane@,
                average,
                standard_deviation,
            ),
            None => old(worker).output(),
        }),
        final(worker).output().timestamp >= old(worker).output().timestamp,
        final(worker).pending() is None,
        final(worker).idle() == old(worker).idle(),
        final(worker).seen() == old(worker).seen(),
{
    match worker.pending {
        Some(timestamp) => {
            let previous = worker.output;
            let max = match luma_max(plane) {
                Some(v) => {
                    proof {
                        lemma_extremes(plane@, v, true);
                    }
                    single_from_u8(v)
                },
                None => previous.max,
            };
            let min = match luma_min(plane) {
                Some(v) => {
                    proof {
                        lemma_extremes(plane@, v, false);
                    }
                    single_from_u8(v)
                },
                None => previous.min,
            };
            worker.output = Luminosity { timestamp, average, standard_deviation, max, min };
            worker.pending = None;
        },
        None => {},
    }
}

/// A plane has one greatest and one least element.
proof fn lemma_extremes(plane: Seq<u8>, v: u8, upper: bool)
    requires
        plane.contains(v),
        upper ==> forall|i: int| 0 <= i < plane.len() ==> plane[i] <= v,
        !upper ==> forall|i: int| 0 <= i < plane.len() ==> plane[i] >= v,
    ensures
        upper ==> greatest(plane) == v,
        !upper ==> least(plane) == v,
{
    if upper {
        let g = greatest(plane);
        assert(plane.contains(g) && forall|i: int| 0 <= i < plane.len() ==> plane[i] <= g);
        let i = choose|i: int| 0 <= i < plane.len() && plane[i] == v;
        let j = choose|j: int| 0 <= j < plane.len() && plane[j] == g;
        assert(plane[i] <= g && plane[j] <= v);
    } else {
        let l = least(plane);
        assert(plane.contains(l) && forall|i: int| 0 <= i < plane.len() ==> plane[i] >= l);
        let i = choose|i: int| 0 <= i < plane.len() && plane[i] == v;
        let j = choose|j: int| 0 <= j < plane.len() && plane[j] == l;
        assert(plane[i] >= l && plane[j] >= v);
    }
}

/// The values were computed from frames in the order of their timestamps.
pub open spec fn in_order<T: Stamped>(sent: Seq<T>) -> bool {
    forall|i: int, j: int| 0 <= i <= j < sent.len() ==> sent[i].stamp() <= sent[j].stamp()
}

/// Every channel has carried its values in the order of their timestamps, and
/// none newer than `bound`.
pub open spec fn all_in_order<T: Stamped>(channels: Seq<ChannelView<T>>, bound: u64) -> bool {
    forall|k: int|
        0 <= k < channels.len() ==> in_order((#[trigger] channels[k]).sent) && (
        channels[k].sent.len() > 0 ==> channels[k].sent.last().stamp() <= bound)
}

/// What a worker publishes arrives in the order of its timestamps: if every
/// channel has carried its values in order so far, and none newer than the
/// output that is broadcast, the same holds after the broadcast.
pub proof fn lemma_published_in_order<T: Stamped>(channels: Seq<ChannelView<T>>, value: T)
    requires
        all_in_order(channels, value.stamp()),
    ensures
        all_in_order(published(channels, value), value.stamp()),
        forall|k: int|
            0 <= k < published(channels, value).len() ==> (#[trigger] published(
                channels,
                value,
            )[k]).sent.last() == value,
    decreases channels.len(),
{
    if channels.len() > 0 {
        let head = channels.drop_last();
        assert forall|k: int| 0 <= k < head.len() implies in_order((#[trigger] head[k]).sent) && (
        head[k].sent.len() > 0 ==> head[k].sent.last().stamp() <= value.stamp()) by {
            assert(head[k] == channels[k]);
        }
        lemma_published_in_order(head, value);
        let after = published(channels, value);
        let rest = published(head, value);
        let last = channels.last();
        assert(last == channels[channels.len() - 1]);
        assert forall|k: int| 0 <= k < after.len() implies in_order((#[trigger] after[k]).sent)
            && after[k].sent.last() == value && after[k].sent.last().stamp() <= value.stamp() by {
            if k < rest.len() {
                assert(after[k] == rest[k]);
            } else {
                let sent = last.sent;
                assert(after[k].sent == sent.push(value));
                assert forall|i: int, j: int| 0 <= i <= j < sent.len() + 1 implies sent.push(
                    value,
                )[i].stamp() <= sent.push(value)[j].stamp() by {
                    if j < sent.len() {
                    } else if i < sent.len() {
                        assert(sent[i].stamp() <= sent[sent.len() - 1].stamp());
                    }
                }
            }
        }
    }
}

} // verus!
