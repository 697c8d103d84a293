use narcissus::errors::{Error, ErrorType};
use narcissus::exchange::msgs::{FacePosition, Luminosity};
use narcissus::exchange::worker::{faceposition, luminosity, BoundingBox, Pull, Worker};
use narcissus::exchange::Exchange;
use narcissus::narcissus::Narcissus;
use narcissus::server::protocol::MsgType;
use narcissus::server::server::{run_session, SessionStep, Signal};
use narcissus::server::session::{
    format_session_id, FacepositionRequest, Inbound, LuminosityRequest, Outgoing, Phase,
    Request, Session, WriteTick, LIVENESS_NANOS, TICK_MILLIS,
};
use narcissus::videoq::{videoq, Ring, Sender};

const SECOND: u64 = 1_000_000_000;
const MILLI: u64 = 1_000_000;
const HELLO: [u8; 10] = [0x00, 0x41, 0x00, 0x00, 0x00, 0x00, 0xde, 0xad, 0xbe, 0xef];

fn invalid() -> Error {
    Error { error_type: ErrorType::InvalidRequest }
}

/// A session that waits for its hello.
fn fresh(now: u64) -> Session {
    Session::new(Narcissus::new().unwrap(), now)
}

/// A session whose hello was accepted at `now`.
fn session(now: u64) -> Session {
    let mut s = fresh(now);
    assert_eq!(s.read_hello(&HELLO, now, [0; 4]), Ok(()));
    s
}

struct Rig {
    ring: Ring,
    camera: Sender,
    exchange: Exchange,
    faces: Worker<FacePosition>,
    light: Worker<Luminosity>,
}

fn rig() -> Rig {
    let (mut ring, camera, rx) = videoq(2);
    let (exchange, faces, light) = Exchange::new(Narcissus::new().unwrap(), rx, &mut ring);
    Rig { ring, camera, exchange, faces, light }
}

impl Rig {
    /// One pass of both workers over a frame stamped `timestamp`.
    fn frame(&mut self, timestamp: u64) {
        self.camera.send(&mut self.ring, &[0, 0], timestamp);
        if let Pull::Luma { .. } = self.faces.pull(&mut self.ring) {
            faceposition(&mut self.faces, &vec![BoundingBox { x: 1, y: 1, width: 2, height: 2 }]);
        }
        if let Pull::Luma { .. } = self.light.pull(&mut self.ring) {
            luminosity(&mut self.light, &[3, 4], 1, 2);
        }
        self.exchange.publish_faceposition(&mut self.faces);
        self.exchange.publish_luminosity(&mut self.light);
    }
}

fn idle() -> WriteTick {
    WriteTick { outgoing: vec![], error: None }
}

#[test]
fn session_ids_are_eight_hex_digits() {
    assert_eq!(format_session_id(0), "00000000");
    assert_eq!(format_session_id(0xefbe_adde), "efbeadde");
    assert_eq!(format_session_id(0x0000_0a0f), "00000a0f");
    assert_eq!(format_session_id(u32::MAX), "ffffffff");
    assert_eq!(format_session_id(0x1234_5678), "12345678");
    assert_eq!(format_session_id(0x9abc_def0), "9abcdef0");
}

#[test]
fn message_ids_are_little_endian() {
    assert_eq!(Session::new_msg_id([0xde, 0xad, 0xbe, 0xef]), 0xefbe_adde);
    assert_eq!(Session::new_msg_id([1, 0, 0, 0]), 1);
}

#[test]
fn a_new_session_waits_for_its_hello() {
    let s = fresh(5);
    assert_eq!(s.phase(), Phase::HelloWait);
    assert_eq!(s.wanted(), 10);
    assert_eq!(s.session_id(), "");
    assert_eq!(s.unsent(), &[] as &[u8]);
    assert_eq!(s.hello_timeout(), 2);
    assert_eq!(s.config().socket_path, "/tmp/narcissus.sock");
    assert_eq!(LIVENESS_NANOS, 15 * SECOND);
    assert_eq!(TICK_MILLIS, 20);
}

#[test]
fn hello_opens_the_session() {
    let mut s = fresh(0);
    assert_eq!(s.read_hello(&HELLO, 3 * SECOND, [0x78, 0x56, 0x34, 0x12]), Ok(()));
    assert_eq!(s.phase(), Phase::Active);
    assert_eq!(s.session_id(), "12345678");
    let body = b"{\"config\":{},\"sessionId\":\"12345678\"}";
    s.write_hello(body, 0x0403_0201);
    let mut expected = vec![0x00, 0x61, body.len() as u8, 0, 0, 0, 1, 2, 3, 4];
    expected.extend_from_slice(body);
    assert_eq!(s.unsent(), &expected[..]);
}

#[test]
fn hello_with_a_body_is_an_invalid_request() {
    let mut s = fresh(0);
    let raw = [0x00, 0x41, 0x01, 0x00, 0x00, 0x00, 0x00, 0x00, 0x00, 0x00];
    assert_eq!(s.read_hello(&raw, 1, [1, 2, 3, 4]), Err(invalid()));
    assert_eq!(s.phase(), Phase::Closed);
    assert_eq!(s.session_id(), "");
}

#[test]
fn a_refused_hello_ends_the_session_with_nothing_written_or_subscribed() {
    let mut rig = rig();
    let mut s = fresh(0);
    let raw = [0x00, 0x41, 0x01, 0x00, 0x00, 0x00, 0x00, 0x00, 0x00, 0x00];
    assert_eq!(run_session(s.phase(), Signal::Empty), SessionStep::Hello);
    assert_eq!(s.read_hello(&raw, 1, [1, 2, 3, 4]), Err(invalid()));
    for signal in [Signal::Empty, Signal::Close, Signal::Disconnected] {
        assert_eq!(run_session(s.phase(), signal), SessionStep::End);
    }
    // whatever is asked of the session now, it writes and subscribes nothing
    s.write_hello(b"{}", 1);
    s.write_msg(MsgType::Faceposition, b"{}", 2);
    s.shutdown(3);
    assert_eq!(s.unsent(), &[] as &[u8]);
    assert_eq!(s.tick_read(&[0x17], 2), Ok(Inbound::Idle));
    assert_eq!(s.wanted(), 10);
    s.subscribe_faceposition(&mut rig.exchange, FacepositionRequest { update_interval: 100 });
    let request = Request::Luminosity(LuminosityRequest { update_interval: 100 });
    assert_eq!(s.dispatch(&mut rig.exchange, Some(request)), Err(invalid()));
    assert!(!rig.exchange.publish_faceposition(&mut rig.faces));
    assert!(!rig.exchange.publish_luminosity(&mut rig.light));
    assert_eq!(s.tick_write(&rig.exchange, 100 * SECOND), idle());
    assert_eq!(s.phase(), Phase::Closed);
    // and a second hello is not accepted
    assert_eq!(s.read_hello(&HELLO, 3, [0; 4]), Err(invalid()));
    assert_eq!(s.phase(), Phase::Closed);
}

#[test]
fn a_session_that_waits_for_its_hello_does_nothing_else() {
    let rig = rig();
    let mut s = fresh(0);
    assert_eq!(s.tick_read(&[0, b'H', 0, 0, 0, 0, 0, 0, 0, 0], 1), Ok(Inbound::Idle));
    assert_eq!(s.wanted(), 10);
    assert_eq!(s.tick_write(&rig.exchange, 100 * SECOND), idle());
    s.write_hello(b"{}", 1);
    s.shutdown(2);
    assert_eq!(s.unsent(), &[] as &[u8]);
    assert_eq!(s.phase(), Phase::HelloWait);
    assert_eq!(s.read_hello(&HELLO, 5, [0; 4]), Ok(()));
    assert_eq!(s.phase(), Phase::Active);
    // an active session accepts no second hello and stays as it is
    assert_eq!(s.read_hello(&HELLO, 6, [1; 4]), Err(invalid()));
    assert_eq!(s.phase(), Phase::Active);
    assert_eq!(s.session_id(), "00000000");
}

#[test]
fn anything_but_a_hello_is_an_invalid_request() {
    for raw in [
        [0, b'H', 0, 0, 0, 0, 0, 0, 0, 0],
        [0, b'F', 0, 0, 0, 0, 0, 0, 0, 0],
        [0, b'Z', 0, 0, 0, 0, 0, 0, 0, 0],
        [1, b'A', 0, 0, 0, 0, 0, 0, 0, 0],
        [0, b'a', 0, 0, 0, 0, 0, 0, 0, 0],
    ] {
        let mut s = fresh(0);
        assert_eq!(s.read_hello(&raw, 1, [1, 2, 3, 4]), Err(invalid()));
        assert_eq!(s.phase(), Phase::Closed);
    }
}

#[test]
fn the_write_buffer_goes_out_in_pieces() {
    let mut s = session(0);
    s.write_msg(MsgType::Luminosity, b"abc", 7);
    assert_eq!(s.unsent(), &[0, b'l', 3, 0, 0, 0, 7, 0, 0, 0, b'a', b'b', b'c']);
    assert!(!s.write(4));
    assert_eq!(s.unsent(), &[0, 0, 7, 0, 0, 0, b'a', b'b', b'c']);
    // a socket that would block took nothing
    assert!(!s.write(0));
    assert!(!s.write(8));
    assert_eq!(s.unsent(), &[b'c']);
    assert!(s.write(1));
    assert_eq!(s.unsent(), &[] as &[u8]);
    assert!(s.write(0));
}

#[test]
fn shutdown_is_a_header_without_a_body() {
    let mut s = session(0);
    s.shutdown(0xefbe_adde);
    assert_eq!(s.unsent(), &[0x00, 0x7a, 0, 0, 0, 0, 0xde, 0xad, 0xbe, 0xef]);
    assert_eq!(s.phase(), Phase::Closed);
    // a closed session does not shut down twice
    s.shutdown(1);
    assert_eq!(s.unsent(), &[0x00, 0x7a, 0, 0, 0, 0, 0xde, 0xad, 0xbe, 0xef]);
}

#[test]
fn a_header_may_arrive_in_pieces() {
    let mut s = session(0);
    assert_eq!(s.tick_read(&[], 1), Ok(Inbound::Idle));
    assert_eq!(s.wanted(), 10);
    assert_eq!(s.tick_read(&[0, b'F', 3], 1), Ok(Inbound::Idle));
    assert_eq!(s.wanted(), 7);
    assert_eq!(s.tick_read(&[0, 0, 0, 9, 9, 9, 9], 1), Ok(Inbound::Idle));
    // the header announced three bytes of body
    assert_eq!(s.wanted(), 3);
    assert_eq!(s.tick_read(b"{", 1), Ok(Inbound::Idle));
    assert_eq!(s.wanted(), 2);
    assert_eq!(s.tick_read(b"}\n", 1), Ok(Inbound::Faceposition(b"{}\n".to_vec())));
    assert_eq!(s.wanted(), 10);
}

#[test]
fn bytes_beyond_the_part_being_read_are_left() {
    let mut s = session(0);
    let mut bytes = vec![0, b'L', 2, 0, 0, 0, 1, 1, 1, 1];
    bytes.extend_from_slice(b"{}");
    // only the header is taken
    assert_eq!(s.tick_read(&bytes, 1), Ok(Inbound::Idle));
    assert_eq!(s.wanted(), 2);
    // only the body is taken
    assert_eq!(s.tick_read(b"{}rest", 1), Ok(Inbound::Luminosity(b"{}".to_vec())));
    assert_eq!(s.wanted(), 10);
}

#[test]
fn a_shutdown_from_the_client_ends_the_session() {
    let mut s = session(0);
    assert_eq!(s.tick_read(&[0, b'Z', 0, 0, 0, 0, 1, 2, 3, 4], 1), Ok(Inbound::Shutdown));
    // the session owes its answer, then it is closed
    assert_eq!(s.phase(), Phase::Closing);
    assert_eq!(run_session(s.phase(), Signal::Empty), SessionStep::Shutdown);
    s.shutdown(9);
    assert_eq!(s.unsent(), &[0x00, 0x7a, 0, 0, 0, 0, 9, 0, 0, 0]);
    assert_eq!(s.phase(), Phase::Closed);
    assert_eq!(run_session(s.phase(), Signal::Empty), SessionStep::End);
    // whatever length it announces
    let mut s = session(0);
    assert_eq!(s.tick_read(&[0, b'Z', 5, 0, 0, 0, 1, 2, 3, 4], 1), Ok(Inbound::Shutdown));
    assert_eq!(s.wanted(), 10);
}

#[test]
fn a_bad_header_is_an_invalid_request() {
    let mut s = session(0);
    assert_eq!(s.tick_read(&[1, b'H', 0, 0, 0, 0, 0, 0, 0, 0], 1), Err(invalid()));
    assert_eq!(s.phase(), Phase::Closed);
    let mut s = session(0);
    assert_eq!(s.tick_read(&[0, b'h', 0, 0, 0, 0, 0, 0, 0, 0], 1), Err(invalid()));
}

#[test]
fn a_body_behind_a_heartbeat_is_an_invalid_request() {
    let mut s = session(0);
    assert_eq!(s.tick_read(&[0, b'H', 1, 0, 0, 0, 0, 0, 0, 0], 1), Ok(Inbound::Idle));
    assert_eq!(s.wanted(), 1);
    assert_eq!(s.tick_read(&[b'x'], 1), Err(invalid()));
    let mut s = session(0);
    assert_eq!(s.tick_read(&[0, b'A', 2, 0, 0, 0, 0, 0, 0, 0], 1), Ok(Inbound::Idle));
    assert_eq!(s.tick_read(&[b'x'], 1), Ok(Inbound::Idle));
    assert_eq!(s.tick_read(&[b'y'], 1), Err(invalid()));
}

#[test]
fn a_silent_client_times_out_after_fifteen_seconds() {
    let rig = rig();
    let mut s = session(1000);
    // at fifteen seconds sharp the session lives on
    assert_eq!(s.tick_write(&rig.exchange, 1000 + 15 * SECOND), idle());
    assert_eq!(
        s.tick_write(&rig.exchange, 1001 + 15 * SECOND),
        WriteTick {
            outgoing: vec![Outgoing::Shutdown],
            error: Some(Error { error_type: ErrorType::ClientTimeout }),
        }
    );
    assert_eq!(s.phase(), Phase::Closing);
    assert_eq!(run_session(s.phase(), Signal::Empty), SessionStep::Shutdown);
    // the session owes nothing more
    assert_eq!(s.tick_write(&rig.exchange, 1002 + 15 * SECOND), idle());
}

#[test]
fn a_clock_that_went_back_times_nobody_out() {
    let rig = rig();
    let mut s = session(100 * SECOND);
    assert_eq!(s.tick_write(&rig.exchange, 0), idle());
}

#[test]
fn a_heartbeat_keeps_the_session_alive() {
    let rig = rig();
    let mut s = session(0);
    let heartbeat = [0, b'H', 0, 0, 0, 0, 5, 5, 5, 5];
    for beat in 1..=4u64 {
        assert_eq!(s.tick_read(&heartbeat, beat * 5 * SECOND), Ok(Inbound::Idle));
        assert_eq!(s.tick_write(&rig.exchange, beat * 5 * SECOND + 1), idle());
    }
    assert_eq!(s.tick_write(&rig.exchange, 35 * SECOND), idle());
    assert!(s.tick_write(&rig.exchange, 35 * SECOND + 1).error.is_some());
}

#[test]
fn a_request_does_not_count_as_a_heartbeat() {
    let rig = rig();
    let mut s = session(0);
    assert_eq!(s.tick_read(&[0, b'F', 0, 0, 0, 0, 5, 5, 5, 5], 10 * SECOND), Ok(Inbound::Idle));
    assert_eq!(s.tick_read(&[0, b'A', 0, 0, 0, 0, 5, 5, 5, 5], 12 * SECOND), Ok(Inbound::Idle));
    assert_eq!(s.tick_write(&rig.exchange, 15 * SECOND), idle());
    assert!(s.tick_write(&rig.exchange, 15 * SECOND + 1).error.is_some());
}

#[test]
fn a_subscription_is_served_at_its_interval() {
    let mut rig = rig();
    let mut s = session(0);
    s.subscribe_faceposition(&mut rig.exchange, FacepositionRequest { update_interval: 500 });
    rig.frame(70);
    let value = FacePosition { timestamp: 70, bottom_left: (1, 1), top_right: (3, 3) };
    // not yet due
    assert_eq!(s.tick_write(&rig.exchange, 500 * MILLI - 1), idle());
    // due
    assert_eq!(
        s.tick_write(&rig.exchange, 500 * MILLI),
        WriteTick { outgoing: vec![Outgoing::Faceposition(value)], error: None }
    );
    // the next one is due half a second after the last
    assert_eq!(s.tick_write(&rig.exchange, 999 * MILLI), idle());
    // the channel conflates: the same value again where nothing newer was sent
    assert_eq!(
        s.tick_write(&rig.exchange, 1000 * MILLI),
        WriteTick { outgoing: vec![Outgoing::Faceposition(value)], error: None }
    );
}

#[test]
fn face_positions_go_out_before_luminosity() {
    let mut rig = rig();
    let mut s = session(0);
    s.subscribe_luminosity(&mut rig.exchange, LuminosityRequest { update_interval: 100 });
    s.subscribe_faceposition(&mut rig.exchange, FacepositionRequest { update_interval: 100 });
    rig.frame(8);
    assert_eq!(
        s.tick_write(&rig.exchange, 100 * MILLI),
        WriteTick {
            outgoing: vec![
                Outgoing::Faceposition(FacePosition {
                    timestamp: 8,
                    bottom_left: (1, 1),
                    top_right: (3, 3),
                }),
                Outgoing::Luminosity(Luminosity {
                    timestamp: 8,
                    average: 1,
                    standard_deviation: 2,
                    max: 4f32.to_bits(),
                    min: 3f32.to_bits(),
                }),
            ],
            error: None,
        }
    );
}

#[test]
fn an_interval_of_zero_ends_the_stream() {
    let mut rig = rig();
    let mut s = session(0);
    s.subscribe_faceposition(&mut rig.exchange, FacepositionRequest { update_interval: 200 });
    rig.frame(1);
    assert_eq!(s.tick_write(&rig.exchange, 200 * MILLI).outgoing.len(), 1);
    s.subscribe_faceposition(&mut rig.exchange, FacepositionRequest { update_interval: 0 });
    assert_eq!(s.tick_write(&rig.exchange, 2 * SECOND), idle());
    // the next pass of the worker drops the channel; the one after finds no subscriber
    assert!(rig.exchange.publish_faceposition(&mut rig.faces));
    assert!(!rig.exchange.publish_faceposition(&mut rig.faces));
    // asking again opens a new stream at the new interval; its first value
    // is due at once, because the last one went out long ago
    s.subscribe_faceposition(&mut rig.exchange, FacepositionRequest { update_interval: 300 });
    rig.frame(2);
    assert_eq!(s.tick_write(&rig.exchange, 2 * SECOND).outgoing.len(), 1);
    assert_eq!(s.tick_write(&rig.exchange, 2 * SECOND + 299 * MILLI), idle());
    assert_eq!(s.tick_write(&rig.exchange, 2 * SECOND + 300 * MILLI).outgoing.len(), 1);
}

#[test]
fn asking_again_replaces_the_stream() {
    let mut rig = rig();
    let mut s = session(0);
    s.subscribe_luminosity(&mut rig.exchange, LuminosityRequest { update_interval: 100 });
    s.subscribe_luminosity(&mut rig.exchange, LuminosityRequest { update_interval: 50 });
    // the first channel lost its only reader and goes with the next pass
    rig.frame(1);
    rig.frame(2);
    assert_eq!(s.tick_write(&rig.exchange, 50 * MILLI).outgoing.len(), 1);
    s.subscribe_luminosity(&mut rig.exchange, LuminosityRequest { update_interval: 0 });
    rig.frame(3);
    assert!(!rig.exchange.publish_luminosity(&mut rig.light));
}

#[test]
fn info_tags_the_line_with_the_session() {
    let mut s = session(0);
    s.new_session_id([0xef, 0xcd, 0xab, 0x00]);
    assert_eq!(
        s.info("client_3", "session established"),
        "thread=client_3\tlevel=info\tmsg=session established\tsession_id=00abcdef"
    );
}

#[test]
fn a_body_that_is_no_request_is_an_invalid_request() {
    let mut rig = rig();
    let mut s = session(0);
    assert_eq!(s.dispatch(&mut rig.exchange, None), Err(invalid()));
    assert_eq!(s.phase(), Phase::Closed);
    assert!(!rig.exchange.publish_faceposition(&mut rig.faces));
}

#[test]
fn a_decoded_request_is_followed() {
    let mut rig = rig();
    let mut s = session(0);
    let request = Request::Luminosity(LuminosityRequest { update_interval: 10 });
    assert_eq!(s.dispatch(&mut rig.exchange, Some(request)), Ok(()));
    let request = Request::Faceposition(FacepositionRequest { update_interval: 10 });
    assert_eq!(s.dispatch(&mut rig.exchange, Some(request)), Ok(()));
    rig.frame(1);
    assert_eq!(s.tick_write(&rig.exchange, 10 * MILLI).outgoing.len(), 2);
}

#[test]
fn a_closed_session_gives_its_streams_up() {
    let mut rig = rig();
    let mut s = session(0);
    s.subscribe_faceposition(&mut rig.exchange, FacepositionRequest { update_interval: 10 });
    s.subscribe_luminosity(&mut rig.exchange, LuminosityRequest { update_interval: 10 });
    s.close(&mut rig.exchange);
    // each analyzer drops the channel on its next pass and then finds nobody
    assert!(rig.exchange.publish_faceposition(&mut rig.faces));
    assert!(!rig.exchange.publish_faceposition(&mut rig.faces));
    assert!(rig.exchange.publish_luminosity(&mut rig.light));
    assert!(!rig.exchange.publish_luminosity(&mut rig.light));
}
