//! The wire format: a ten-byte header, then a JSON body.
//!
//! ```text
//! [version:1] [type:1] [msg_len:4, little-endian] [msg_id:4, little-endian]
//! ```
//!
//! Clients write the type as an upper-case letter; the server answers with the
//! lower-case letter of the same kind.

use vstd::prelude::*;
use crate::errors::{Error, ErrorType};

verus! {

/// The only protocol version there is.
pub const VERSION: u8 = 0;

/// The length of a header on the wire.
pub const HEADER_LEN: usize = 10;

/// The kind of a message.
#[derive(Copy, Clone, Debug, PartialEq, Eq, Structural)]
pub enum MsgType {
    /// No message: the kind of a header that was never filled.
    Empty,
    Hello,
    Shutdown,
    Heartbeat,
    Faceposition,
    Luminosity,
}

impl Default for MsgType {
    fn default() -> (r: Self)
        ensures
            r == MsgType::Empty,
    {
        MsgType::Empty
    }
}

/// The kind that a client means by the type byte `code`.
pub open spec fn request_type(code: u8) -> Option<MsgType> {
    if code == 0x41 {
        Some(MsgType::Hello)
    } else if code == 0x5a {
        Some(MsgType::Shutdown)
    } else if code == 0x48 {
        Some(MsgType::Heartbeat)
    } else if code == 0x46 {
        Some(MsgType::Faceposition)
    } else if code == 0x4c {
        Some(MsgType::Luminosity)
    } else {
        None
    }
}

/// The type byte by which a client names the kind `t`: `A`, `Z`, `H`, `F`, `L`.
pub open spec fn request_code(t: MsgType) -> Option<u8> {
    match t {
        MsgType::Empty => None,
        MsgType::Hello => Some(0x41u8),
        MsgType::Shutdown => Some(0x5au8),
        MsgType::Heartbeat => Some(0x48u8),
        MsgType::Faceposition => Some(0x46u8),
        MsgType::Luminosity => Some(0x4cu8),
    }
}

/// The type byte by which the server names the kind `t`: `a`, `z`, `f`, `l`.
/// The server sends neither heartbeats nor empty messages.
pub open spec fn response_code(t: MsgType) -> Option<u8> {
    match t {
        MsgType::Empty => None,
        MsgType::Hello => Some(0x61u8),
        MsgType::Shutdown => Some(0x7au8),
        MsgType::Heartbeat => None,
        MsgType::Faceposition => Some(0x66u8),
        MsgType::Luminosity => Some(0x6cu8),
    }
}

impl MsgType {
    /// The kind that a client means by the type byte `code`.
    pub fn from_request_code(code: u8) -> (r: Option<MsgType>)
        ensures
            r == request_type(code),
    {
        if code == 0x41 {
            Some(MsgType::Hello)
        } else if code == 0x5a {
            Some(MsgType::Shutdown)
        } else if code == 0x48 {
            Some(MsgType::Heartbeat)
        } else if code == 0x46 {
            Some(MsgType::Faceposition)
        } else if code == 0x4c {
            Some(MsgType::Luminosity)
        } else {
            None
        }
    }

    /// The type byte by which a client names this kind.
    pub fn request_code(&self) -> (r: Option<u8>)
        ensures
            r == request_code(*self),
    {
        match self {
            MsgType::Empty => None,
            MsgType::Hello => Some(0x41),
            MsgType::Shutdown => Some(0x5a),
            MsgType::Heartbeat => Some(0x48),
            MsgType::Faceposition => Some(0x46),
            MsgType::Luminosity => Some(0x4c),
        }
    }

    /// The type byte by which the server names this kind.
    pub fn response_code(&self) -> (r: Option<u8>)
        ensures
            r == response_code(*self),
    {
        match self {
            MsgType::Empty => None,
            MsgType::Hello => Some(0x61),
            MsgType::Shutdown => Some(0x7a),
            MsgType::Heartbeat => None,
            MsgType::Faceposition => Some(0x66),
            MsgType::Luminosity => Some(0x6c),
        }
    }
}

/// The number that four bytes spell, least significant byte first.
pub open spec fn le_u32(b0: u8, b1: u8, b2: u8, b3: u8) -> int {
    b0 + 0x100 * b1 + 0x1_0000 * b2 + 0x100_0000 * b3
}

/// The four bytes that spell `x`, least significant byte first.
pub open spec fn le_bytes(x: u32) -> Seq<u8> {
    seq![
        (x % 0x100) as u8,
        (x / 0x100 % 0x100) as u8,
        (x / 0x1_0000 % 0x100) as u8,
        (x / 0x100_0000) as u8,
    ]
}

/// Reads a number from four bytes, least significant byte first.
pub fn u32_from_le(b0: u8, b1: u8, b2: u8, b3: u8) -> (x: u32)
    ensures
        x == le_u32(b0, b1, b2, b3),
        le_bytes(x) == seq![b0, b1, b2, b3],
{
    proof {
        lemma_le_bytes_of_le_u32(b0, b1, b2, b3);
    }
    b0 as u32 + 0x100 * (b1 as u32) + 0x1_0000 * (b2 as u32) + 0x100_0000 * (b3 as u32)
}

/// Writes a number as four bytes, least significant byte first.
pub fn u32_to_le(x: u32) -> (b: [u8; 4])
    ensures
        b@ == le_bytes(x),
        le_u32(b[0], b[1], b[2], b[3]) == x,
{
    let b = [
        (x % 0x100) as u8,
        (x / 0x100 % 0x100) as u8,
        (x / 0x1_0000 % 0x100) as u8,
        (x / 0x100_0000) as u8,
    ];
    proof {
        assert(b@ =~= le_bytes(x));
    }
    b
}

/// The header of one message.
#[derive(Copy, Clone, Debug, PartialEq, Eq, Structural)]
pub struct Header {
    pub version: u8,
    pub msg_type: MsgType,
    /// The length of the body that follows, in bytes.
    pub msg_len: u32,
    pub msg_id: u32,
}

impl Default for Header {
    fn default() -> (r: Self)
        ensures
            r == (Header { version: 0, msg_type: MsgType::Empty, msg_len: 0, msg_id: 0 }),
    {
        Header { version: 0, msg_type: MsgType::Empty, msg_len: 0, msg_id: 0 }
    }
}

/// The error of every protocol violation.
pub open spec fn invalid_request() -> Error {
    Error { error_type: ErrorType::InvalidRequest }
}

/// What the ten bytes `raw` of a client mean: a header, unless the version is
/// not 0 or the type byte names no kind.
pub open spec fn parse_header(raw: Seq<u8>) -> Result<Header, Error> {
    if raw[0] != VERSION {
        Err(invalid_request())
    } else {
        match request_type(raw[1]) {
            None => Err(invalid_request()),
            Some(msg_type) => Ok(
                Header {
                    version: raw[0],
                    msg_type,
                    msg_len: le_u32(raw[2], raw[3], raw[4], raw[5]) as u32,
                    msg_id: le_u32(raw[6], raw[7], raw[8], raw[9]) as u32,
                },
            ),
        }
    }
}

/// Whether a client can write `h`: the version is 0 and the kind has a
/// request code.
pub open spec fn is_request(h: Header) -> bool {
    h.version == VERSION && request_code(h.msg_type) is Some
}

/// The ten bytes by which a client writes the header `h`.
pub open spec fn request_bytes(h: Header) -> Seq<u8> {
    seq![h.version, request_code(h.msg_type).unwrap()] + le_bytes(h.msg_len) + le_bytes(h.msg_id)
}

/// The bytes of a message of the server: the header with the kind's response
/// code and the length of the body, then the body.
pub open spec fn message_bytes(msg_type: MsgType, body: Seq<u8>, msg_id: u32) -> Seq<u8> {
    seq![VERSION, response_code(msg_type).unwrap()] + le_bytes(body.len() as u32) + le_bytes(
        msg_id,
    ) + body
}

impl Header {
    /// Reads the header that a client wrote.
    pub fn from_raw(raw: &[u8; 10]) -> (r: Result<Header, Error>)
        ensures
            r == parse_header(raw@),
    {
        if raw[0] != VERSION {
            return Err(Error { error_type: ErrorType::InvalidRequest });
        }
        let msg_type = match MsgType::from_request_code(raw[1]) {
            Some(t) => t,
            None => {
                return Err(Error { error_type: ErrorType::InvalidRequest });
            },
        };
        let msg_len = u32_from_le(raw[2], raw[3], raw[4], raw[5]);
        let msg_id = u32_from_le(raw[6], raw[7], raw[8], raw[9]);
        Ok(Header { version: raw[0], msg_type, msg_len, msg_id })
    }

    /// Writes the header as a client writes it.
    pub fn to_raw(&self) -> (raw: [u8; 10])
        requires
            is_request(*self),
        ensures
            raw@ == request_bytes(*self),
            parse_header(raw@) == Ok::<Header, Error>(*self),
    {
        let code = self.msg_type.request_code().unwrap();
        let len = u32_to_le(self.msg_len);
        let id = u32_to_le(self.msg_id);
        let raw = [self.version, code, len[0], len[1], len[2], len[3], id[0], id[1], id[2], id[3]];
        proof {
            assert(raw@ =~= request_bytes(*self));
            lemma_header_round_trip(*self);
        }
        raw
    }
}

/// Four bytes spell the number that spells them.
pub proof fn lemma_le_bytes_of_le_u32(b0: u8, b1: u8, b2: u8, b3: u8)
    ensures
        0 <= le_u32(b0, b1, b2, b3) <= u32::MAX,
        le_bytes(le_u32(b0, b1, b2, b3) as u32) == seq![b0, b1, b2, b3],
{
    let x = le_u32(b0, b1, b2, b3) as u32;
    assert(x % 0x100 == b0);
    assert(x / 0x100 % 0x100 == b1);
    assert(x / 0x1_0000 % 0x100 == b2);
    assert(x / 0x100_0000 == b3);
    assert(le_bytes(x) =~= seq![b0, b1, b2, b3]);
}

/// A number is spelled by the four bytes that it spells.
pub proof fn lemma_le_u32_of_le_bytes(x: u32)
    ensures
        le_bytes(x).len() == 4,
        le_u32(le_bytes(x)[0], le_bytes(x)[1], le_bytes(x)[2], le_bytes(x)[3]) == x,
{
}

/// The ten bytes of a header that a client writes, one by one.
proof fn lemma_request_bytes(h: Header)
    ensures
        request_bytes(h).len() == HEADER_LEN,
        request_bytes(h)[0] == h.version,
        request_bytes(h)[1] == request_code(h.msg_type).unwrap(),
        request_bytes(h)[2] == le_bytes(h.msg_len)[0],
        request_bytes(h)[3] == le_bytes(h.msg_len)[1],
        request_bytes(h)[4] == le_bytes(h.msg_len)[2],
        request_bytes(h)[5] == le_bytes(h.msg_len)[3],
        request_bytes(h)[6] == le_bytes(h.msg_id)[0],
        request_bytes(h)[7] == le_bytes(h.msg_id)[1],
        request_bytes(h)[8] == le_bytes(h.msg_id)[2],
        request_bytes(h)[9] == le_bytes(h.msg_id)[3],
{
    let a = seq![h.version, request_code(h.msg_type).unwrap()];
    let b = le_bytes(h.msg_len);
    let c = le_bytes(h.msg_id);
    assert(a.len() == 2 && b.len() == 4 && c.len() == 4);
    assert((a + b).len() == 6);
    assert(request_bytes(h) == (a + b) + c);
}

/// A kind's request code names that kind, and only the five codes name a kind.
pub proof fn lemma_request_codes(t: MsgType, code: u8)
    ensures
        request_code(t) matches Some(c) ==> request_type(c) == Some(t),
        request_type(code) matches Some(k) ==> request_code(k) == Some(code),
{
}

/// Reading what was written gives the header back: for every header a client
/// can write, with any of the five kinds.
pub proof fn lemma_header_round_trip(h: Header)
    requires
        is_request(h),
    ensures
        request_bytes(h).len() == HEADER_LEN,
        parse_header(request_bytes(h)) == Ok::<Header, Error>(h),
{
    let raw = request_bytes(h);
    lemma_request_bytes(h);
    lemma_le_u32_of_le_bytes(h.msg_len);
    lemma_le_u32_of_le_bytes(h.msg_id);
    lemma_request_codes(h.msg_type, raw[1]);
    let len = le_u32(raw[2], raw[3], raw[4], raw[5]);
    let id = le_u32(raw[6], raw[7], raw[8], raw[9]);
    assert(len == h.msg_len);
    assert(id == h.msg_id);
}

/// Writing what was read gives the bytes back: for every ten bytes that are a
/// header.
pub proof fn lemma_raw_round_trip(raw: Seq<u8>)
    requires
        raw.len() == HEADER_LEN,
        parse_header(raw) is Ok,
    ensures
        is_request(parse_header(raw).unwrap()),
        request_bytes(parse_header(raw).unwrap()) == raw,
{
    let h = parse_header(raw).unwrap();
    lemma_request_codes(h.msg_type, raw[1]);
    lemma_le_bytes_of_le_u32(raw[2], raw[3], raw[4], raw[5]);
    lemma_le_bytes_of_le_u32(raw[6], raw[7], raw[8], raw[9]);
    lemma_request_bytes(h);
    let out = request_bytes(h);
    assert(le_bytes(h.msg_len) == seq![raw[2], raw[3], raw[4], raw[5]]);
    assert(le_bytes(h.msg_id) == seq![raw[6], raw[7], raw[8], raw[9]]);
    assert forall|i: int| 0 <= i < 10 implies out[i] == raw[i] by {
        if i == 0 {
        } else if i == 1 {
        } else if i == 2 {
        } else if i == 3 {
        } else if i == 4 {
        } else if i == 5 {
        } else if i == 6 {
        } else if i == 7 {
        } else if i == 8 {
        } else {
        }
    }
    assert(out =~= raw);
}

/// Replaces what `buf` holds by the message of kind `msg_type` with the given
/// body and id.
pub fn encode_message(buf: &mut Vec<u8>, msg_type: MsgType, body: &[u8], msg_id: u32)
    requires
        response_code(msg_type) is Some,
        body@.len() <= u32::MAX,
    ensures
        final(buf)@ == message_bytes(msg_type, body@, msg_id),
{
    buf.clear();
    buf.push(VERSION);
    buf.push(msg_type.response_code().unwrap());
    let len = u32_to_le(body.len() as u32);
    let id = u32_to_le(msg_id);
    buf.push(len[0]);
    buf.push(len[1]);
    buf.push(len[2]);
    buf.push(len[3]);
    buf.push(id[0]);
    buf.push(id[1]);
    buf.push(id[2]);
    buf.push(id[3]);
    let ghost head = buf@;
    let mut i: usize = 0;
    while i < body.len()
        invariant
            i <= body@.len(),
            buf@ == head + body@.take(i as int),
        decreases body@.len() - i,
    {
        buf.push(body[i]);
        proof {
            assert(body@.take(i as int + 1) =~= body@.take(i as int).push(body@[i as int]));
            assert(buf@ =~= head + body@.take(i as int + 1));
        }
        i += 1;
    }
    proof {
        assert(body@.take(body@.len() as int) =~= body@);
        assert(head =~= seq![VERSION, response_code(msg_type).unwrap()] + le_bytes(
            body@.len() as u32,
        ) + le_bytes(msg_id));
    }
}

} // verus!
