//! The session of one client, without the socket.
//!
//! The session is a state machine. Whoever owns the socket hands it the bytes
//! that arrived and the time, and writes what the session puts into its write
//! buffer. Time is a count of nanoseconds on a clock that does not go back.

use vstd::prelude::*;
use crate::errors::{Error, ErrorType};
use crate::exchange::confchannel::{ChannelView, Receiver};
use crate::exchange::msgs::{FacePosition, Luminosity};
use crate::exchange::{position, released, Exchange};
use crate::ltsv::{line, log, push_char};
use crate::narcissus::Narcissus;
use crate::server::protocol::{
    encode_message,
    invalid_request,
    message_bytes,
    parse_header,
    response_code,
    u32_from_le,
    Header,
    MsgType,
    HEADER_LEN,
};

verus! {

/// A session that has not heard from its client for longer than this many
/// nanoseconds is closed.
pub const LIVENESS_NANOS: u64 = 15_000_000_000;

/// How long the owner of the socket waits between two ticks, in milliseconds.
pub const TICK_MILLIS: u64 = 20;

/// The number of nanoseconds in a millisecond.
pub const NANOS_PER_MILLI: u64 = 1_000_000;

/// The update interval of a stream before the client has asked for one, in
/// nanoseconds.
pub const DEFAULT_RATE_NANOS: u64 = 1_000_000_000;

/// Where a session stands in its life.
#[derive(Copy, Clone, Debug, PartialEq, Eq, Structural)]
pub enum Phase {
    /// The client has connected and owes its hello. Nothing is read but the
    /// hello, nothing is written and nothing is subscribed.
    HelloWait,
    /// The hello was accepted: the session reads requests and writes values.
    Active,
    /// The session is over but for the shutdown message it owes its client.
    Closing,
    /// The session is over.
    Closed,
}

/// Which part of a message the session is reading.
#[derive(Copy, Clone, Debug, PartialEq, Eq, Structural)]
pub enum ReadState {
    Header,
    Body,
}

/// A client's request for face positions, every `update_interval`
/// milliseconds; 0 ends the stream.
#[derive(Copy, Clone, Debug, PartialEq, Eq, Structural)]
pub struct FacepositionRequest {
    pub update_interval: u32,
}

/// A client's request for luminosity values, every `update_interval`
/// milliseconds; 0 ends the stream.
#[derive(Copy, Clone, Debug, PartialEq, Eq, Structural)]
pub struct LuminosityRequest {
    pub update_interval: u32,
}

/// A request of a client, decoded.
#[derive(Copy, Clone, Debug, PartialEq, Eq, Structural)]
pub enum Request {
    Faceposition(FacepositionRequest),
    Luminosity(LuminosityRequest),
}

/// The time from `then` to `now`; none where the clock reads less than before.
pub open spec fn elapsed(now: u64, then: u64) -> int {
    if now >= then {
        now - then
    } else {
        0
    }
}

/// The hexadecimal digit of a number below sixteen, in lower case.
pub open spec fn hex_digit(n: int) -> char {
    if n < 10 {
        (0x30 + n) as u8 as char
    } else {
        (0x61 + n - 10) as u8 as char
    }
}

/// The weight of the hexadecimal digit `i` of an eight-digit number, counted
/// from the left.
pub open spec fn hex_weight(i: int) -> int {
    if i == 0 {
        0x1000_0000
    } else if i == 1 {
        0x100_0000
    } else if i == 2 {
        0x10_0000
    } else if i == 3 {
        0x1_0000
    } else if i == 4 {
        0x1000
    } else if i == 5 {
        0x100
    } else if i == 6 {
        0x10
    } else {
        1
    }
}

/// A number as eight hexadecimal digits in lower case, zeros in front.
pub open spec fn hex8(id: u32) -> Seq<char> {
    Seq::new(8, |i: int| hex_digit((id as int / hex_weight(i)) % 16))
}

/// Writes a number as eight hexadecimal digits in lower case.
pub fn format_session_id(id: u32) -> (s: String)
    ensures
        s@ == hex8(id),
{
    let weights: [u32; 8] = [0x1000_0000, 0x100_0000, 0x10_0000, 0x1_0000, 0x1000, 0x100, 0x10, 1];
    let mut s = String::new();
    let mut i: usize = 0;
    while i < 8
        invariant
            i <= 8,
            weights@.len() == 8,
            forall|k: int| 0 <= k < 8 ==> weights@[k] == hex_weight(k),
            s@.len() == i,
            forall|k: int| 0 <= k < i ==> s@[k] == hex8(id)[k],
        decreases 8 - i,
    {
        assert(weights@[i as int] == hex_weight(i as int));
        let d: u32 = (id / weights[i]) % 16;
        let c: char = if d < 10 {
            (0x30 + d) as u8 as char
        } else {
            (0x61 + d - 10) as u8 as char
        };
        push_char(&mut s, c);
        assert(c == hex8(id)[i as int]);
        i += 1;
    }
    proof {
        assert(s@ =~= hex8(id));
    }
    s
}

/// One stream of a session, as far as its users can tell.
pub struct StreamView {
    /// The key of the channel the session reads, if it is subscribed.
    pub receiver: Option<u64>,
    /// When the session last wrote a value of this stream.
    pub last_write: u64,
    /// The least time between two values, in nanoseconds.
    pub update_rate: u64,
}

/// A session, as far as its users can tell.
pub struct SessionView {
    /// The settings the session was made with.
    pub config: crate::narcissus::Config,
    pub phase: Phase,
    /// When the client last said hello or sent a heartbeat.
    pub last_read: u64,
    pub faceposition: StreamView,
    pub luminosity: StreamView,
    pub session_id: Seq<char>,
    pub read_state: ReadState,
    /// The bytes of the message that is being read: what there is of its
    /// header, then what there is of its body.
    pub received: Seq<u8>,
    /// The last header read.
    pub header: Header,
    /// The message that is being written.
    pub write_buffer: Seq<u8>,
    /// How many bytes of the write buffer the socket has taken.
    pub write_sent: nat,
    /// The id of the last message written.
    pub write_msg_id: u32,
}

impl StreamView {
    /// Whether a value of this stream is owed at `now`: the session is
    /// subscribed and the update interval has passed since the last value.
    pub open spec fn due(self, now: u64) -> bool {
        self.receiver is Some && elapsed(now, self.last_write) >= self.update_rate
    }
}

impl SessionView {
    /// Whether the client has been silent for too long at `now`.
    pub open spec fn timed_out(self, now: u64) -> bool {
        elapsed(now, self.last_read) > LIVENESS_NANOS
    }

    /// How many bytes the session takes next: the rest of the header, or the
    /// rest of the body.
    pub open spec fn wanted(self) -> int {
        match self.read_state {
            ReadState::Header => HEADER_LEN - self.received.len(),
            ReadState::Body => HEADER_LEN + self.header.msg_len - self.received.len(),
        }
    }

    /// What of the write buffer the socket has not taken yet.
    pub open spec fn unsent(self) -> Seq<u8> {
        self.write_buffer.skip(self.write_sent as int)
    }

    /// A header is read until it is whole; a body is read only where its
    /// header announced one, and until it is whole. No more of the write
    /// buffer was taken than it holds. A session that waits for its hello has
    /// read nothing.
    pub open spec fn wf(self) -> bool {
        &&& self.write_sent <= self.write_buffer.len()
        &&& self.phase == Phase::HelloWait ==> self.read_state == ReadState::Header
            && self.received.len() == 0
        &&& match self.read_state {
            ReadState::Header => self.received.len() < HEADER_LEN,
            ReadState::Body => {
                &&& HEADER_LEN <= self.received.len() < HEADER_LEN + self.header.msg_len
                &&& parse_header(self.received.take(HEADER_LEN as int)) == Ok::<Header, Error>(
                    self.header,
                )
            },
        }
    }
}

/// What the session learned from the bytes of one tick.
#[derive(Debug, PartialEq, Eq)]
pub enum Inbound {
    /// No message is complete, or one that asks for nothing.
    Idle,
    /// The client asked to end the session: answer with a shutdown message
    /// and end.
    Shutdown,
    /// The body of a request for face positions, to be decoded.
    Faceposition(Vec<u8>),
    /// The body of a request for luminosity values, to be decoded.
    Luminosity(Vec<u8>),
}

/// `Inbound`, with its bodies as sequences.
pub enum InboundView {
    Idle,
    Shutdown,
    Faceposition(Seq<u8>),
    Luminosity(Seq<u8>),
}

impl View for Inbound {
    type V = InboundView;

    open spec fn view(&self) -> InboundView {
        match self {
            Inbound::Idle => InboundView::Idle,
            Inbound::Shutdown => InboundView::Shutdown,
            Inbound::Faceposition(body) => InboundView::Faceposition(body@),
            Inbound::Luminosity(body) => InboundView::Luminosity(body@),
        }
    }
}

/// A message that the session owes its client.
#[derive(Clone, Copy, Debug, PartialEq, Eq)]
pub enum Outgoing {
    /// A shutdown message, without a body.
    Shutdown,
    /// A face position, to be encoded as the body of a message of that kind.
    Faceposition(FacePosition),
    /// A luminosity value, to be encoded as the body of a message of that kind.
    Luminosity(Luminosity),
}

/// What a tick of writing asks for: the messages to write, in this order,
/// and the error that ends the session after them, if there is one.
#[derive(Debug, PartialEq, Eq)]
pub struct WriteTick {
    pub outgoing: Vec<Outgoing>,
    pub error: Option<Error>,
}

/// The error of a client that has been silent for too long.
pub open spec fn client_timeout() -> Error {
    Error { error_type: ErrorType::ClientTimeout }
}

/// What the reading end filed under `receiver` finds among `channels`.
pub open spec fn stream_value<T>(channels: Seq<ChannelView<T>>, receiver: Option<u64>) -> Option<
    T,
> {
    match receiver {
        Some(key) => match position(channels, key) {
            Some(i) => channels[i].received(),
            None => None,
        },
        None => None,
    }
}

impl SessionView {
    /// The part of `bytes` that the session takes: all of it, or as much as
    /// the part of the message that is being read still lacks.
    pub open spec fn chunk(self, bytes: Seq<u8>) -> Seq<u8> {
        if bytes.len() <= self.wanted() {
            bytes
        } else {
            bytes.take(self.wanted())
        }
    }

    /// The session after `bytes` arrived at `now` while it reads a header,
    /// and what it learned. A whole header that is none is an invalid request
    /// and closes the session. A shutdown leaves the session owing its answer,
    /// whatever length it announces. A heartbeat counts as heard at `now`. A
    /// header that announces a body makes the session read that body next.
    pub open spec fn after_header(self, bytes: Seq<u8>, now: u64) -> (
        SessionView,
        Result<InboundView, Error>,
    ) {
        let acc = self.received + self.chunk(bytes);
        if acc.len() < HEADER_LEN {
            (SessionView { received: acc, ..self }, Ok(InboundView::Idle))
        } else {
            match parse_header(acc) {
                Err(e) => (SessionView { phase: Phase::Closed, ..self }, Err(e)),
                Ok(h) => if h.msg_type == MsgType::Shutdown {
                    (
                        SessionView {
                            phase: Phase::Closing,
                            header: h,
                            received: Seq::empty(),
                            ..self
                        },
                        Ok(InboundView::Shutdown),
                    )
                } else {
                    let heard = if h.msg_type == MsgType::Heartbeat {
                        now
                    } else {
                        self.last_read
                    };
                    if h.msg_len > 0 {
                        (
                            SessionView {
                                header: h,
                                last_read: heard,
                                read_state: ReadState::Body,
                                received: acc,
                                ..self
                            },
                            Ok(InboundView::Idle),
                        )
                    } else {
                        (
                            SessionView {
                                header: h,
                                last_read: heard,
                                received: Seq::empty(),
                                ..self
                            },
                            Ok(InboundView::Idle),
                        )
                    }
                },
            }
        }
    }

    /// The session after `bytes` arrived while it reads a body, and what it
    /// learned. A whole body is handed out where its header asked for a
    /// stream; a whole body behind any other header is an invalid request and
    /// closes the session.
    pub open spec fn after_body(self, bytes: Seq<u8>) -> (
        SessionView,
        Result<InboundView, Error>,
    ) {
        let acc = self.received + self.chunk(bytes);
        if acc.len() < HEADER_LEN + self.header.msg_len {
            (SessionView { received: acc, ..self }, Ok(InboundView::Idle))
        } else {
            let body = acc.skip(HEADER_LEN as int);
            let next = SessionView {
                read_state: ReadState::Header,
                received: Seq::empty(),
                ..self
            };
            match self.header.msg_type {
                MsgType::Faceposition => (next, Ok(InboundView::Faceposition(body))),
                MsgType::Luminosity => (next, Ok(InboundView::Luminosity(body))),
                _ => (SessionView { phase: Phase::Closed, ..self }, Err(invalid_request())),
            }
        }
    }

    /// The session after `bytes` arrived at `now`, and what it learned. Only
    /// an active session reads: any other takes nothing and learns nothing.
    pub open spec fn after_read(self, bytes: Seq<u8>, now: u64) -> (
        SessionView,
        Result<InboundView, Error>,
    ) {
        if self.phase != Phase::Active {
            (self, Ok(InboundView::Idle))
        } else {
            match self.read_state {
                ReadState::Header => self.after_header(bytes, now),
                ReadState::Body => self.after_body(bytes),
            }
        }
    }

    /// The session after the client's first ten bytes `raw` arrived at `now`,
    /// and whether they were accepted, where `id` is the number the session
    /// is named after. Only a session that waits for its hello accepts one,
    /// and only a hello without a body: then it is active, named, and counts
    /// as heard at `now`. Anything else is an invalid request; it closes a
    /// session that waited for its hello and leaves any other as it was.
    pub open spec fn after_hello(self, raw: Seq<u8>, now: u64, id: u32) -> (
        SessionView,
        Result<(), Error>,
    ) {
        if self.phase == Phase::HelloWait && hello_accepted(raw) {
            (
                SessionView {
                    phase: Phase::Active,
                    header: parse_header(raw).unwrap(),
                    last_read: now,
                    session_id: hex8(id),
                    ..self
                },
                Ok(()),
            )
        } else if self.phase == Phase::HelloWait {
            (SessionView { phase: Phase::Closed, ..self }, Err(invalid_request()))
        } else {
            (self, Err(invalid_request()))
        }
    }

    /// The session after it was told to write the message of kind `msg_type`
    /// with the given body and id: an active session has the message in its
    /// write buffer, in place of what was there; any other stays as it was.
    pub open spec fn after_message(self, msg_type: MsgType, body: Seq<u8>, msg_id: u32)
        -> SessionView {
        if self.phase == Phase::Active {
            SessionView {
                write_buffer: message_bytes(msg_type, body, msg_id),
                write_sent: 0,
                write_msg_id: msg_id,
                ..self
            }
        } else {
            self
        }
    }

    /// The session after it was told to shut down: a session that is active,
    /// or over but for its shutdown message, has that message in its write
    /// buffer and is closed; any other stays as it was.
    pub open spec fn after_shutdown(self, msg_id: u32) -> SessionView {
        if self.phase == Phase::Active || self.phase == Phase::Closing {
            SessionView {
                phase: Phase::Closed,
                write_buffer: message_bytes(MsgType::Shutdown, Seq::empty(), msg_id),
                write_sent: 0,
                write_msg_id: msg_id,
                ..self
            }
        } else {
            self
        }
    }

    /// The session after a request for face positions every `interval`
    /// milliseconds, where `key` is the key the next subscription is filed
    /// under: an active session takes the interval and reads the new channel,
    /// or none where the interval is 0; any other stays as it was.
    pub open spec fn after_face_request(self, interval: u32, key: u64) -> SessionView {
        if self.phase == Phase::Active {
            SessionView {
                faceposition: StreamView {
                    receiver: if interval > 0 {
                        Some(key)
                    } else {
                        None
                    },
                    update_rate: (interval * NANOS_PER_MILLI) as u64,
                    last_write: self.faceposition.last_write,
                },
                ..self
            }
        } else {
            self
        }
    }

    /// The session after a request for luminosity values every `interval`
    /// milliseconds, where `key` is the key the next subscription is filed
    /// under: an active session takes the interval and reads the new channel,
    /// or none where the interval is 0; any other stays as it was.
    pub open spec fn after_light_request(self, interval: u32, key: u64) -> SessionView {
        if self.phase == Phase::Active {
            SessionView {
                luminosity: StreamView {
                    receiver: if interval > 0 {
                        Some(key)
                    } else {
                        None
                    },
                    update_rate: (interval * NANOS_PER_MILLI) as u64,
                    last_write: self.luminosity.last_write,
                },
                ..self
            }
        } else {
            self
        }
    }

    /// The session after a tick of writing at `now`, the messages it owes and
    /// the error it ends with, where `face` and `light` are what its reading
    /// ends find. Only an active session owes anything. One that timed out
    /// owes a shutdown message and ends with `ClientTimeout`. Else each stream
    /// that is due and finds a value owes that value, face position first,
    /// and counts as written at `now`.
    pub open spec fn after_write(self, face: Option<FacePosition>, light: Option<Luminosity>, now: u64)
        -> (SessionView, Seq<Outgoing>, Option<Error>) {
        if self.phase != Phase::Active {
            (self, Seq::empty(), None)
        } else if self.timed_out(now) {
            (
                SessionView { phase: Phase::Closing, ..self },
                seq![Outgoing::Shutdown],
                Some(client_timeout()),
            )
        } else {
            let send_face = self.faceposition.due(now) && face is Some;
            let send_light = self.luminosity.due(now) && light is Some;
            (
                SessionView {
                    faceposition: if send_face {
                        StreamView { last_write: now, ..self.faceposition }
                    } else {
                        self.faceposition
                    },
                    luminosity: if send_light {
                        StreamView { last_write: now, ..self.luminosity }
                    } else {
                        self.luminosity
                    },
                    ..self
                },
                (if send_face {
                    seq![Outgoing::Faceposition(face.unwrap())]
                } else {
                    Seq::empty()
                }) + (if send_light {
                    seq![Outgoing::Luminosity(light.unwrap())]
                } else {
                    Seq::empty()
                }),
                None,
            )
        }
    }
}

/// One stream of a session: the reading end, if the client is subscribed, the
/// time of the last value written and the least time between two values.
pub struct Stream<T: Copy> {
    receiver: Option<Receiver<T>>,
    last_write: u64,
    update_rate: u64,
}

impl<T: Copy> View for Stream<T> {
    type V = StreamView;

    closed spec fn view(&self) -> StreamView {
        StreamView {
            receiver: match self.receiver {
                Some(rx) => Some(rx.channel()),
                None => None,
            },
            last_write: self.last_write,
            update_rate: self.update_rate,
        }
    }
}

/// The session of one client.
pub struct Session {
    n: Narcissus,
    phase: Phase,
    last_read: u64,
    faceposition: Stream<FacePosition>,
    luminosity: Stream<Luminosity>,
    session_id: String,
    read_state: ReadState,
    read_header_buf: [u8; 10],
    read_bytes_read: usize,
    read_body_buf: Vec<u8>,
    read_header: Header,
    write_buffer: Vec<u8>,
    write_sent: usize,
    write_msg_id: u32,
}

impl View for Session {
    type V = SessionView;

    closed spec fn view(&self) -> SessionView {
        SessionView {
            config: self.n.config,
            phase: self.phase,
            last_read: self.last_read,
            faceposition: self.faceposition@,
            luminosity: self.luminosity@,
            session_id: self.session_id@,
            read_state: self.read_state,
            received: self.read_header_buf@.take(self.read_bytes_read as int) + self.read_body_buf@,
            header: self.read_header,
            write_buffer: self.write_buffer@,
            write_sent: self.write_sent as nat,
            write_msg_id: self.write_msg_id,
        }
    }
}

impl Session {
    /// The buffers agree with the reading state, and the view is well-formed.
    pub closed spec fn wf(&self) -> bool {
        &&& self@.wf()
        &&& self.read_bytes_read <= HEADER_LEN
        &&& match self.read_state {
            ReadState::Header => self.read_body_buf@.len() == 0,
            ReadState::Body => self.read_bytes_read == HEADER_LEN,
        }
    }

    /// The view of a well-formed session is well-formed.
    pub proof fn lemma_wf(&self)
        requires
            self.wf(),
        ensures
            self@.wf(),
    {
    }

    /// A session for a client that connected at `now`. It waits for the
    /// client's hello, is subscribed to nothing and has nothing to write.
    pub fn new(n: Narcissus, now: u64) -> (s: Session)
        ensures
            s.wf(),
            s@ == (SessionView {
                config: n.config,
                phase: Phase::HelloWait,
                last_read: now,
                faceposition: StreamView {
                    receiver: None,
                    last_write: now,
                    update_rate: DEFAULT_RATE_NANOS,
                },
                luminosity: StreamView {
                    receiver: None,
                    last_write: now,
                    update_rate: DEFAULT_RATE_NANOS,
                },
                session_id: Seq::<char>::empty(),
                read_state: ReadState::Header,
                received: Seq::<u8>::empty(),
                header: Header { version: 0, msg_type: MsgType::Empty, msg_len: 0, msg_id: 0 },
                write_buffer: Seq::<u8>::empty(),
                write_sent: 0,
                write_msg_id: 0,
            }),
    {
        let s = Session {
            n,
            phase: Phase::HelloWait,
            last_read: now,
            faceposition: Stream { receiver: None, last_write: now, update_rate: DEFAULT_RATE_NANOS },
            luminosity: Stream { receiver: None, last_write: now, update_rate: DEFAULT_RATE_NANOS },
            session_id: String::new(),
            read_state: ReadState::Header,
            read_header_buf: [0, 0, 0, 0, 0, 0, 0, 0, 0, 0],
            read_bytes_read: 0,
            read_body_buf: Vec::new(),
            read_header: Header::default(),
            write_buffer: Vec::new(),
            write_sent: 0,
            write_msg_id: 0,
        };
        proof {
            assert(s@.received =~= Seq::<u8>::empty());
        }
        s
    }

    /// How many seconds the client has to say hello.
    pub fn hello_timeout(&self) -> (secs: u64)
        ensures
            secs == self@.config.client_hello_timeout,
    {
        self.n.config.client_hello_timeout
    }

    /// The id of this session.
    pub fn session_id(&self) -> (id: &String)
        ensures
            id@ == self@.session_id,
    {
        &self.session_id
    }

    /// The settings the session was made with.
    pub fn config(&self) -> (c: &crate::narcissus::Config)
        ensures
            *c == self@.config,
    {
        &self.n.config
    }

    /// Names the session after four bytes of entropy: the number they spell,
    /// least significant byte first, as eight hexadecimal digits.
    pub fn new_session_id(&mut self, entropy: [u8; 4])
        requires
            old(self).wf(),
        ensures
            final(self).wf(),
            final(self)@ == (SessionView {
                session_id: hex8(
                    crate::server::protocol::le_u32(entropy[0], entropy[1], entropy[2], entropy[3]) as u32,
                ),
                ..old(self)@
            }),
    {
        let id = u32_from_le(entropy[0], entropy[1], entropy[2], entropy[3]);
        self.session_id = format_session_id(id);
    }

    /// The message id that four bytes of entropy spell, least significant
    /// byte first.
    pub fn new_msg_id(entropy: [u8; 4]) -> (id: u32)
        ensures
            id == crate::server::protocol::le_u32(entropy[0], entropy[1], entropy[2], entropy[3]),
    {
        u32_from_le(entropy[0], entropy[1], entropy[2], entropy[3])
    }

    /// Where the session stands in its life.
    pub fn phase(&self) -> (p: Phase)
        ensures
            p == self@.phase,
    {
        self.phase
    }

    /// Puts the message of kind `msg_type` with the given body and id into the
    /// write buffer of an active session, in place of what was there. A
    /// session that is not active writes nothing.
    pub fn write_msg(&mut self, msg_type: MsgType, body: &[u8], msg_id: u32)
        requires
            old(self).wf(),
            response_code(msg_type) is Some,
            body@.len() <= u32::MAX,
        ensures
            final(self).wf(),
            final(self)@ == old(self)@.after_message(msg_type, body@, msg_id),
    {
        match self.phase {
            Phase::Active => {
                encode_message(&mut self.write_buffer, msg_type, body, msg_id);
                self.write_sent = 0;
                self.write_msg_id = msg_id;
            },
            _ => {},
        }
    }

    /// What of the write buffer the socket has not taken yet.
    pub fn unsent(&self) -> (rest: &[u8])
        requires
            self.wf(),
        ensures
            rest@ == self@.unsent(),
    {
        let rest = vstd::slice::slice_subrange(
            self.write_buffer.as_slice(),
            self.write_sent,
            self.write_buffer.len(),
        );
        proof {
            assert(rest@ =~= self@.unsent());
        }
        rest
    }

    /// Notes that the socket took `n` more bytes of the write buffer; none
    /// where the socket would have blocked. Returns whether the whole buffer
    /// is out.
    pub fn write(&mut self, n: usize) -> (done: bool)
        requires
            old(self).wf(),
        ensures
            final(self).wf(),
            final(self)@ == (SessionView {
                write_sent: if old(self)@.write_sent + n <= old(self)@.write_buffer.len() {
                    (old(self)@.write_sent + n) as nat
                } else {
                    old(self)@.write_buffer.len()
                },
                ..old(self)@
            }),
            done == (final(self)@.write_sent == final(self)@.write_buffer.len()),
    {
        let rest = self.write_buffer.len() - self.write_sent;
        if n <= rest {
            self.write_sent = self.write_sent + n;
        } else {
            self.write_sent = self.write_buffer.len();
        }
        self.write_sent == self.write_buffer.len()
    }

    /// Puts the answer to the client's hello into the write buffer of an
    /// active session. `body` is the JSON of the settings and the session id.
    /// A session whose hello was not accepted writes nothing.
    pub fn write_hello(&mut self, body: &[u8], msg_id: u32)
        requires
            old(self).wf(),
            body@.len() <= u32::MAX,
        ensures
            final(self).wf(),
            final(self)@ == old(self)@.after_message(MsgType::Hello, body@, msg_id),
    {
        self.write_msg(MsgType::Hello, body, msg_id);
    }

    /// Ends a session that is active, or over but for its shutdown message:
    /// puts a shutdown message, which has no body, into the write buffer and
    /// closes the session. A session that waits for its hello or is closed
    /// writes nothing.
    pub fn shutdown(&mut self, msg_id: u32)
        requires
            old(self).wf(),
        ensures
            final(self).wf(),
            final(self)@ == old(self)@.after_shutdown(msg_id),
    {
        match self.phase {
            Phase::Active | Phase::Closing => {
                let body: Vec<u8> = Vec::new();
                encode_message(&mut self.write_buffer, MsgType::Shutdown, body.as_slice(), msg_id);
                self.write_sent = 0;
                self.write_msg_id = msg_id;
                self.phase = Phase::Closed;
            },
            _ => {},
        }
    }

    /// Takes the first ten bytes of the client. A session that waits for its
    /// hello accepts a hello without a body: it becomes active, gets its id
    /// from `entropy` and counts as heard at `now`. Anything else is an invalid
    /// request and closes the session before it has written or subscribed
    /// anything. A session that does not wait for a hello accepts none and
    /// stays as it is.
    pub fn read_hello(&mut self, raw: &[u8; 10], now: u64, entropy: [u8; 4]) -> (r: Result<
        (),
        Error,
    >)
        requires
            old(self).wf(),
        ensures
            final(self).wf(),
            (final(self)@, r) == old(self)@.after_hello(
                raw@,
                now,
                crate::server::protocol::le_u32(entropy[0], entropy[1], entropy[2], entropy[3]) as u32,
            ),
    {
        match self.phase {
            Phase::HelloWait => {},
            _ => {
                return Err(Error { error_type: ErrorType::InvalidRequest });
            },
        }
        let accepted = match Header::from_raw(raw) {
            Ok(h) => if h.msg_type == MsgType::Hello && h.msg_len == 0 {
                Some(h)
            } else {
                None
            },
            Err(_) => None,
        };
        match accepted {
            Some(header) => {
                self.phase = Phase::Active;
                self.read_header = header;
                self.last_read = now;
                self.new_session_id(entropy);
                Ok(())
            },
            None => {
                self.phase = Phase::Closed;
                Err(Error { error_type: ErrorType::InvalidRequest })
            },
        }
    }

    /// The log line of an event of this session: the message with the
    /// session's id as its one tag.
    pub fn info(&self, thread: &str, msg: &str) -> (log_line: String)
        ensures
            log_line@ == line(thread@, "info"@, msg@, seq![("session_id"@, self@.session_id)]),
    {
        let mut tags: Vec<(&str, &str)> = Vec::new();
        tags.push(("session_id", self.session_id.as_str()));
        proof {
            assert(crate::ltsv::tag_views(tags@) =~= seq![("session_id"@, self@.session_id)]);
        }
        log(thread, "info", msg, &tags)
    }
}

/// What a tick of reading returned, with its bodies as sequences.
pub open spec fn learned(r: Result<Inbound, Error>) -> Result<InboundView, Error> {
    match r {
        Ok(inbound) => Ok(inbound@),
        Err(e) => Err(e),
    }
}

/// The time from `then` to `now`; none where the clock reads less than before.
fn time_since(now: u64, then: u64) -> (d: u64)
    ensures
        d == elapsed(now, then),
{
    if now >= then {
        now - then
    } else {
        0
    }
}

impl Session {
    /// How many bytes the session takes next.
    pub fn wanted(&self) -> (n: usize)
        requires
            self.wf(),
        ensures
            n == self@.wanted(),
            n > 0,
    {
        match self.read_state {
            ReadState::Header => HEADER_LEN - self.read_bytes_read,
            ReadState::Body => self.read_header.msg_len as usize - self.read_body_buf.len(),
        }
    }

    /// Takes bytes that arrived at `now` while the session reads a header.
    fn tick_read_header(&mut self, bytes: &[u8], now: u64) -> (r: Result<Inbound, Error>)
        requires
            old(self).wf(),
            old(self)@.phase == Phase::Active,
            old(self)@.read_state == ReadState::Header,
        ensures
            final(self).wf(),
            final(self)@ == old(self)@.after_header(bytes@, now).0,
            learned(r) == old(self)@.after_header(bytes@, now).1,
    {
        let ghost before = self@;
        let start = self.read_bytes_read;
        let room = HEADER_LEN - start;
        let take = if bytes.len() <= room {
            bytes.len()
        } else {
            room
        };
        let mut buf = self.read_header_buf;
        let mut i: usize = 0;
        while i < take
            invariant
                i <= take,
                take <= bytes@.len(),
                start + take <= HEADER_LEN,
                buf@.len() == HEADER_LEN,
                buf@.take(start as int) == self.read_header_buf@.take(start as int),
                forall|k: int| 0 <= k < i ==> buf@[start + k] == bytes@[k],
            decreases take - i,
        {
            let ghost prev = buf@;
            buf[start + i] = bytes[i];
            proof {
                assert(buf@.take(start as int) =~= prev.take(start as int));
            }
            i += 1;
        }
        let filled = start + take;
        let ghost acc = before.received + before.chunk(bytes@);
        proof {
            assert(before.received =~= self.read_header_buf@.take(start as int));
            assert(before.chunk(bytes@) =~= bytes@.take(take as int));
            assert(buf@.take(filled as int) =~= acc);
        }
        if filled < HEADER_LEN {
            self.read_header_buf = buf;
            self.read_bytes_read = filled;
            proof {
                assert(self@.received =~= acc);
            }
            return Ok(Inbound::Idle);
        }
        proof {
            assert(buf@ =~= acc);
        }
        match Header::from_raw(&buf) {
            Err(e) => {
                self.phase = Phase::Closed;
                Err(e)
            },
            Ok(h) => {
                self.read_header = h;
                if h.msg_type == MsgType::Shutdown {
                    self.phase = Phase::Closing;
                    self.read_bytes_read = 0;
                    proof {
                        assert(self@.received =~= Seq::<u8>::empty());
                    }
                    return Ok(Inbound::Shutdown);
                }
                if h.msg_type == MsgType::Heartbeat {
                    self.last_read = now;
                }
                if h.msg_len > 0 {
                    self.read_header_buf = buf;
                    self.read_bytes_read = HEADER_LEN;
                    self.read_state = ReadState::Body;
                    proof {
                        assert(self@.received =~= acc);
                        assert(self@.received.take(HEADER_LEN as int) =~= acc);
                    }
                } else {
                    self.read_bytes_read = 0;
                    proof {
                        assert(self@.received =~= Seq::<u8>::empty());
                    }
                }
                Ok(Inbound::Idle)
            },
        }
    }

    /// Takes bytes that arrived while the session reads a body.
    fn tick_read_body(&mut self, bytes: &[u8]) -> (r: Result<Inbound, Error>)
        requires
            old(self).wf(),
            old(self)@.phase == Phase::Active,
            old(self)@.read_state == ReadState::Body,
        ensures
            final(self).wf(),
            final(self)@ == old(self)@.after_body(bytes@).0,
            learned(r) == old(self)@.after_body(bytes@).1,
    {
        let ghost before = self@;
        let ghost head = self.read_header_buf@.take(HEADER_LEN as int);
        let need = self.read_header.msg_len as usize - self.read_body_buf.len();
        let take = if bytes.len() <= need {
            bytes.len()
        } else {
            need
        };
        let ghost acc = before.received + before.chunk(bytes@);
        proof {
            assert(before.chunk(bytes@) =~= bytes@.take(take as int));
        }
        if take == need {
            match self.read_header.msg_type {
                MsgType::Faceposition => {},
                MsgType::Luminosity => {},
                _ => {
                    self.phase = Phase::Closed;
                    return Err(Error { error_type: ErrorType::InvalidRequest });
                },
            }
        }
        let ghost body_before = self.read_body_buf@;
        let mut i: usize = 0;
        while i < take
            invariant
                i <= take,
                take <= bytes@.len(),
                self.read_body_buf@ == body_before + bytes@.take(i as int),
                self.read_header_buf@.take(HEADER_LEN as int) == head,
                self.read_bytes_read == HEADER_LEN,
                self.read_state == ReadState::Body,
                self.read_header == before.header,
                self.phase == before.phase,
                self.last_read == before.last_read,
                self.faceposition@ == before.faceposition,
                self.luminosity@ == before.luminosity,
                self.session_id@ == before.session_id,
                self.n.config == before.config,
                self.write_buffer@ == before.write_buffer,
                self.write_sent == before.write_sent,
                self.write_msg_id == before.write_msg_id,
            decreases take - i,
        {
            self.read_body_buf.push(bytes[i]);
            proof {
                assert(bytes@.take(i as int + 1) =~= bytes@.take(i as int).push(bytes@[i as int]));
                assert(self.read_body_buf@ =~= body_before + bytes@.take(i as int + 1));
            }
            i += 1;
        }
        proof {
            assert(before.received =~= head + body_before);
            assert(self@.received =~= acc);
            assert(acc.take(HEADER_LEN as int) =~= before.received.take(HEADER_LEN as int));
        }
        if take < need {
            return Ok(Inbound::Idle);
        }
        let mut body: Vec<u8> = Vec::new();
        core::mem::swap(&mut self.read_body_buf, &mut body);
        self.read_state = ReadState::Header;
        self.read_bytes_read = 0;
        proof {
            assert(self@.received =~= Seq::<u8>::empty());
            assert(body@ =~= acc.skip(HEADER_LEN as int));
        }
        match self.read_header.msg_type {
            MsgType::Faceposition => Ok(Inbound::Faceposition(body)),
            _ => Ok(Inbound::Luminosity(body)),
        }
    }

    /// Takes the bytes that arrived at `now`: at most as many as the part of
    /// the message that is being read still lacks, from the front of `bytes`.
    /// Only an active session reads.
    pub fn tick_read(&mut self, bytes: &[u8], now: u64) -> (r: Result<Inbound, Error>)
        requires
            old(self).wf(),
        ensures
            final(self).wf(),
            final(self)@ == old(self)@.after_read(bytes@, now).0,
            learned(r) == old(self)@.after_read(bytes@, now).1,
    {
        match self.phase {
            Phase::Active => {},
            _ => {
                return Ok(Inbound::Idle);
            },
        }
        match self.read_state {
            ReadState::Header => self.tick_read_header(bytes, now),
            ReadState::Body => self.tick_read_body(bytes),
        }
    }

    /// Says what an active session owes its client at `now`: a shutdown
    /// message and the end where the client has been silent for too long, else
    /// the latest value of each stream that is due. A session that is not
    /// active owes nothing.
    pub fn tick_write(&mut self, exc: &Exchange, now: u64) -> (r: WriteTick)
        requires
            old(self).wf(),
            exc.wf(),
        ensures
            final(self).wf(),
            (final(self)@, r.outgoing@, r.error) == old(self)@.after_write(
                stream_value(exc.faceposition(), old(self)@.faceposition.receiver),
                stream_value(exc.luminosity(), old(self)@.luminosity.receiver),
                now,
            ),
    {
        let ghost before = self@;
        let mut outgoing: Vec<Outgoing> = Vec::new();
        match self.phase {
            Phase::Active => {},
            _ => {
                return WriteTick { outgoing, error: None };
            },
        }
        if time_since(now, self.last_read) > LIVENESS_NANOS {
            self.phase = Phase::Closing;
            outgoing.push(Outgoing::Shutdown);
            proof {
                assert(outgoing@ =~= seq![Outgoing::Shutdown]);
            }
            return WriteTick {
                outgoing,
                error: Some(Error { error_type: ErrorType::ClientTimeout }),
            };
        }
        let face = if time_since(now, self.faceposition.last_write)
            >= self.faceposition.update_rate {
            match &self.faceposition.receiver {
                Some(rx) => exc.recv_faceposition(rx),
                None => None,
            }
        } else {
            None
        };
        let light = if time_since(now, self.luminosity.last_write) >= self.luminosity.update_rate {
            match &self.luminosity.receiver {
                Some(rx) => exc.recv_luminosity(rx),
                None => None,
            }
        } else {
            None
        };
        match face {
            Some(v) => {
                outgoing.push(Outgoing::Faceposition(v));
                self.faceposition.last_write = now;
            },
            None => {},
        }
        match light {
            Some(v) => {
                outgoing.push(Outgoing::Luminosity(v));
                self.luminosity.last_write = now;
            },
            None => {},
        }
        proof {
            let plan = before.after_write(
                stream_value(exc.faceposition(), before.faceposition.receiver),
                stream_value(exc.luminosity(), before.luminosity.receiver),
                now,
            );
            assert(outgoing@ =~= plan.1);
            assert(self@.faceposition == plan.0.faceposition);
            assert(self@.luminosity == plan.0.luminosity);
        }
        WriteTick { outgoing, error: None }
    }

    /// Follows a request for face positions, if the session is active: gives
    /// up the stream the session has, takes the new interval, and opens a new
    /// stream unless the interval is 0. A session that is not active follows
    /// no request.
    pub fn subscribe_faceposition(&mut self, exc: &mut Exchange, req: FacepositionRequest)
        requires
            old(self).wf(),
            old(exc).wf(),
            old(self)@.phase == Phase::Active && req.update_interval > 0 ==> old(
                exc,
            ).faceposition_next_key() < u64::MAX,
        ensures
            final(self).wf(),
            final(exc).wf(),
            final(self)@ == old(self)@.after_face_request(
                req.update_interval,
                old(exc).faceposition_next_key(),
            ),
            final(exc).luminosity() == old(exc).luminosity(),
            final(exc).luminosity_next_key() == old(exc).luminosity_next_key(),
            served(
                old(self)@.phase == Phase::Active,
                old(exc).faceposition(),
                old(exc).faceposition_next_key(),
                old(self)@.faceposition.receiver,
                req.update_interval,
                final(exc).faceposition(),
                final(exc).faceposition_next_key(),
            ),
    {
        match self.phase {
            Phase::Active => {},
            _ => {
                return ;
            },
        }
        match self.faceposition.receiver.take() {
            Some(rx) => {
                exc.release_faceposition(rx);
            },
            None => {},
        }
        self.faceposition.update_rate = (req.update_interval as u64) * NANOS_PER_MILLI;
        if req.update_interval > 0 {
            self.faceposition.receiver = Some(exc.subscribe_faceposition());
        }
    }

    /// Follows a request for luminosity values, if the session is active:
    /// gives up the stream the session has, takes the new interval, and opens
    /// a new stream unless the interval is 0. A session that is not active
    /// follows no request.
    pub fn subscribe_luminosity(&mut self, exc: &mut Exchange, req: LuminosityRequest)
        requires
            old(self).wf(),
            old(exc).wf(),
            old(self)@.phase == Phase::Active && req.update_interval > 0 ==> old(
                exc,
            ).luminosity_next_key() < u64::MAX,
        ensures
            final(self).wf(),
            final(exc).wf(),
            final(self)@ == old(self)@.after_light_request(
                req.update_interval,
                old(exc).luminosity_next_key(),
            ),
            final(exc).faceposition() == old(exc).faceposition(),
            final(exc).faceposition_next_key() == old(exc).faceposition_next_key(),
            served(
                old(self)@.phase == Phase::Active,
                old(exc).luminosity(),
                old(exc).luminosity_next_key(),
                old(self)@.luminosity.receiver,
                req.update_interval,
                final(exc).luminosity(),
                final(exc).luminosity_next_key(),
            ),
    {
        match self.phase {
            Phase::Active => {},
            _ => {
                return ;
            },
        }
        match self.luminosity.receiver.take() {
            Some(rx) => {
                exc.release_luminosity(rx);
            },
            None => {},
        }
        self.luminosity.update_rate = (req.update_interval as u64) * NANOS_PER_MILLI;
        if req.update_interval > 0 {
            self.luminosity.receiver = Some(exc.subscribe_luminosity());
        }
    }

    /// Follows the request that a body was decoded to, if the session is
    /// active; `None` stands for a body that is no request, which is an
    /// invalid request and closes the session. A session that is not active
    /// follows no request and stays as it is.
    pub fn dispatch(&mut self, exc: &mut Exchange, request: Option<Request>) -> (r: Result<
        (),
        Error,
    >)
        requires
            old(self).wf(),
            old(exc).wf(),
            old(self)@.phase == Phase::Active ==> match request {
                Some(Request::Faceposition(req)) => req.update_interval > 0 ==> old(
                    exc,
                ).faceposition_next_key() < u64::MAX,
                Some(Request::Luminosity(req)) => req.update_interval > 0 ==> old(
                    exc,
                ).luminosity_next_key() < u64::MAX,
                None => true,
            },
        ensures
            final(self).wf(),
            final(exc).wf(),
            r == (if old(self)@.phase == Phase::Active && request is Some {
                Ok::<(), Error>(())
            } else {
                Err::<(), Error>(invalid_request())
            }),
            match request {
                None => {
                    &&& final(self)@ == (if old(self)@.phase == Phase::Active {
                        SessionView { phase: Phase::Closed, ..old(self)@ }
                    } else {
                        old(self)@
                    })
                    &&& final(exc).same_lists(old(exc))
                },
                Some(Request::Faceposition(req)) => {
                    &&& final(self)@ == old(self)@.after_face_request(
                        req.update_interval,
                        old(exc).faceposition_next_key(),
                    )
                    &&& final(exc).luminosity() == old(exc).luminosity()
                    &&& final(exc).luminosity_next_key() == old(exc).luminosity_next_key()
                    &&& served(
                        old(self)@.phase == Phase::Active,
                        old(exc).faceposition(),
                        old(exc).faceposition_next_key(),
                        old(self)@.faceposition.receiver,
                        req.update_interval,
                        final(exc).faceposition(),
                        final(exc).faceposition_next_key(),
                    )
                },
                Some(Request::Luminosity(req)) => {
                    &&& final(self)@ == old(self)@.after_light_request(
                        req.update_interval,
                        old(exc).luminosity_next_key(),
                    )
                    &&& final(exc).faceposition() == old(exc).faceposition()
                    &&& final(exc).faceposition_next_key() == old(exc).faceposition_next_key()
                    &&& served(
                        old(self)@.phase == Phase::Active,
                        old(exc).luminosity(),
                        old(exc).luminosity_next_key(),
                        old(self)@.luminosity.receiver,
                        req.update_interval,
                        final(exc).luminosity(),
                        final(exc).luminosity_next_key(),
                    )
                },
            },
    {
        match self.phase {
            Phase::Active => {},
            _ => {
                return Err(Error { error_type: ErrorType::InvalidRequest });
            },
        }
        match request {
            None => {
                self.phase = Phase::Closed;
                Err(Error { error_type: ErrorType::InvalidRequest })
            },
            Some(Request::Faceposition(req)) => {
                self.subscribe_faceposition(exc, req);
                Ok(())
            },
            Some(Request::Luminosity(req)) => {
                self.subscribe_luminosity(exc, req);
                Ok(())
            },
        }
    }

    /// Ends the session: gives up the reading ends of both streams, so that
    /// the analyzers drop the session's channels on their next pass.
    pub fn close(self, exc: &mut Exchange)
        requires
            self.wf(),
            old(exc).wf(),
        ensures
            final(exc).wf(),
            final(exc).faceposition_next_key() == old(exc).faceposition_next_key(),
            final(exc).luminosity_next_key() == old(exc).luminosity_next_key(),
            final(exc).faceposition() == (match self@.faceposition.receiver {
                Some(key) => released(old(exc).faceposition(), key),
                None => old(exc).faceposition(),
            }),
            final(exc).luminosity() == (match self@.luminosity.receiver {
                Some(key) => released(old(exc).luminosity(), key),
                None => old(exc).luminosity(),
            }),
    {
        let Session { faceposition, luminosity, .. } = self;
        match faceposition.receiver {
            Some(rx) => {
                exc.release_faceposition(rx);
            },
            None => {},
        }
        match luminosity.receiver {
            Some(rx) => {
                exc.release_luminosity(rx);
            },
            None => {},
        }
    }
}

/// How a subscriber list changes when a session that reads the channel
/// `held` (if any) asks for a stream every `interval` milliseconds: the
/// session's reading end of `held` is given up; then, unless the interval is
/// 0, a fresh channel with one reading end is filed under the next key.
pub open spec fn subscribed<T>(
    before: Seq<ChannelView<T>>,
    before_key: u64,
    held: Option<u64>,
    interval: u32,
    after: Seq<ChannelView<T>>,
    after_key: u64,
) -> bool {
    let dropped = match held {
        Some(key) => released(before, key),
        None => before,
    };
    if interval == 0 {
        after == dropped && after_key == before_key
    } else {
        &&& after.len() == dropped.len() + 1
        &&& after.drop_last() == dropped
        &&& after.last().key == before_key
        &&& after.last().sent == Seq::<T>::empty()
        &&& after.last().receivers == 1
        &&& !after.last().closed
        &&& after_key == before_key + 1
    }
}

/// How a subscriber list changes when a session asks for a stream: as
/// `subscribed` says where the session is active, and not at all where it is
/// not.
pub open spec fn served<T>(
    active: bool,
    before: Seq<ChannelView<T>>,
    before_key: u64,
    held: Option<u64>,
    interval: u32,
    after: Seq<ChannelView<T>>,
    after_key: u64,
) -> bool {
    if active {
        subscribed(before, before_key, held, interval, after, after_key)
    } else {
        after == before && after_key == before_key
    }
}

/// Whether ten bytes are a hello that opens a session: a header of kind
/// hello that announces no body.
pub open spec fn hello_accepted(raw: Seq<u8>) -> bool {
    parse_header(raw) matches Ok(h) && h.msg_type == MsgType::Hello && h.msg_len == 0
}

/// An active session whose client has been silent for more than the liveness
/// window owes a shutdown message, ends with `ClientTimeout` and is over but
/// for that message, whatever its streams hold; no other active session is
/// asked to shut down or to end.
pub proof fn lemma_silent_session_ends(
    s: SessionView,
    face: Option<FacePosition>,
    light: Option<Luminosity>,
    now: u64,
)
    requires
        s.phase == Phase::Active,
    ensures
        elapsed(now, s.last_read) > LIVENESS_NANOS ==> s.after_write(face, light, now) == (
            SessionView { phase: Phase::Closing, ..s },
            seq![Outgoing::Shutdown],
            Some(client_timeout()),
        ),
        elapsed(now, s.last_read) <= LIVENESS_NANOS ==> {
            let plan = s.after_write(face, light, now);
            &&& plan.0.phase == Phase::Active
            &&& plan.2 is None
            &&& forall|i: int| 0 <= i < plan.1.len() ==> plan.1[i] != Outgoing::Shutdown
        },
{
}

/// Ten bytes that announce a body are no hello that opens a session, and
/// neither are ten bytes of another kind or version.
pub proof fn lemma_hello_with_body_rejected(raw: Seq<u8>)
    requires
        raw.len() == HEADER_LEN,
    ensures
        crate::server::protocol::le_u32(raw[2], raw[3], raw[4], raw[5]) != 0 ==> !hello_accepted(
            raw,
        ),
        hello_accepted(raw) <==> raw[0] == 0 && raw[1] == 0x41 && raw[2] == 0 && raw[3] == 0
            && raw[4] == 0 && raw[5] == 0,
{
}

/// A session whose hello is refused is closed at once, with nothing in its
/// write buffer that was not there and no stream subscribed that was not.
pub proof fn lemma_refused_hello_closes(s: SessionView, raw: Seq<u8>, now: u64, id: u32)
    requires
        s.phase == Phase::HelloWait,
        !hello_accepted(raw),
    ensures
        s.after_hello(raw, now, id) == (
            SessionView { phase: Phase::Closed, ..s },
            Err::<(), Error>(invalid_request()),
        ),
{
}

/// A session that is not active reads nothing, owes nothing, writes no
/// message and follows no request; one that is closed, or waits for its
/// hello, does not even write a shutdown message. So a session becomes
/// active through an accepted hello only, and a closed one stays closed.
pub proof fn lemma_inactive_session_is_inert(
    s: SessionView,
    bytes: Seq<u8>,
    now: u64,
    face: Option<FacePosition>,
    light: Option<Luminosity>,
    msg_type: MsgType,
    body: Seq<u8>,
    msg_id: u32,
    interval: u32,
    key: u64,
)
    requires
        s.phase != Phase::Active,
    ensures
        s.after_read(bytes, now) == (s, Ok::<InboundView, Error>(InboundView::Idle)),
        s.after_write(face, light, now) == (s, Seq::<Outgoing>::empty(), None::<Error>),
        s.after_message(msg_type, body, msg_id) == s,
        s.after_face_request(interval, key) == s,
        s.after_light_request(interval, key) == s,
        s.phase != Phase::Closing ==> s.after_shutdown(msg_id) == s,
        s.phase != Phase::HelloWait ==> s.after_hello(bytes, now, msg_id).0 == s,
        s.after_hello(bytes, now, msg_id).0.phase == Phase::Active ==> s.phase
            == Phase::HelloWait && hello_accepted(bytes),
{
}

/// Whether a tick of writing at `now` owes a face position.
pub open spec fn owes_face(s: SessionView, face: Option<FacePosition>, now: u64) -> bool {
    s.phase == Phase::Active && !s.timed_out(now) && s.faceposition.due(now) && face is Some
}

/// Whether a tick of writing at `now` owes a luminosity value.
pub open spec fn owes_light(s: SessionView, light: Option<Luminosity>, now: u64) -> bool {
    s.phase == Phase::Active && !s.timed_out(now) && s.luminosity.due(now) && light is Some
}

/// Two values of one stream are never owed closer together than the stream's
/// update interval: if a tick at `first` owes a value and a later tick at
/// `second` owes the next one, the interval lies between them.
pub proof fn lemma_rate_bound(
    s: SessionView,
    first: u64,
    face1: Option<FacePosition>,
    light1: Option<Luminosity>,
    second: u64,
    face2: Option<FacePosition>,
    light2: Option<Luminosity>,
)
    requires
        first <= second,
    ensures
        ({
            let next = s.after_write(face1, light1, first).0;
            &&& owes_face(s, face1, first) && owes_face(next, face2, second) ==> second - first
                >= s.faceposition.update_rate
            &&& owes_light(s, light1, first) && owes_light(next, light2, second) ==> second
                - first >= s.luminosity.update_rate
        }),
{
}

/// What a tick of writing owes is a face position exactly if one is owed,
/// and a luminosity value exactly if one is owed; the face position comes
/// first.
pub proof fn lemma_owed_is_written(
    s: SessionView,
    face: Option<FacePosition>,
    light: Option<Luminosity>,
    now: u64,
)
    requires
        s.phase == Phase::Active,
        !s.timed_out(now),
    ensures
        ({
            let out = s.after_write(face, light, now).1;
            &&& out.len() == (if owes_face(s, face, now) {
                1int
            } else {
                0
            }) + (if owes_light(s, light, now) {
                1int
            } else {
                0
            })
            &&& owes_face(s, face, now) ==> out[0] == Outgoing::Faceposition(face.unwrap())
            &&& owes_light(s, light, now) ==> out.last() == Outgoing::Luminosity(light.unwrap())
        }),
{
}

/// A request with interval 0 ends the stream of an active session without
/// drawing a key: the session reads no channel of that stream any more, the
/// list keeps its length and its next key, and the channel the session read
/// has one reading end less. If the session's was its only reading end, the
/// next broadcast drops the channel.
pub proof fn lemma_unsubscribe<T>(
    before: Seq<ChannelView<T>>,
    before_key: u64,
    held: u64,
    after: Seq<ChannelView<T>>,
    after_key: u64,
    value: T,
)
    requires
        crate::exchange::distinct_keys(before),
        subscribed(before, before_key, Some(held), 0, after, after_key),
    ensures
        after.len() == before.len(),
        after_key == before_key,
        position(before, held) matches Some(i) ==> after[i] == before[i].with_receivers(
            (before[i].receivers - 1) % 256,
        ) && (before[i].receivers == 1 ==> position(
            crate::exchange::published(after, value),
            held,
        ) is None),
        position(before, held) is None ==> after == before,
{
    match position(before, held) {
        Some(i) => {
            if before[i].receivers == 1 {
                crate::exchange::lemma_unsubscribe_prunes(before, held, value);
            }
        },
        None => {},
    }
}

} // verus!
