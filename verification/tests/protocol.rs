use narcissus::errors::{Error, ErrorType};
use narcissus::server::protocol::{
    encode_message, u32_from_le, u32_to_le, Header, MsgType, HEADER_LEN, VERSION,
};

fn invalid_request() -> Error {
    Error { error_type: ErrorType::InvalidRequest }
}

#[test]
fn the_header_is_ten_bytes_of_version_zero() {
    assert_eq!(HEADER_LEN, 10);
    assert_eq!(VERSION, 0);
    assert_eq!(MsgType::default(), MsgType::Empty);
    assert_eq!(
        Header::default(),
        Header { version: 0, msg_type: MsgType::Empty, msg_len: 0, msg_id: 0 }
    );
}

#[test]
fn numbers_are_little_endian() {
    assert_eq!(u32_from_le(0xde, 0xad, 0xbe, 0xef), 0xefbe_adde);
    assert_eq!(u32_to_le(0xefbe_adde), [0xde, 0xad, 0xbe, 0xef]);
    assert_eq!(u32_from_le(1, 0, 0, 0), 1);
    assert_eq!(u32_to_le(0x0102_0304), [4, 3, 2, 1]);
    assert_eq!(u32_from_le(0xff, 0xff, 0xff, 0xff), u32::MAX);
    assert_eq!(u32_to_le(u32::MAX), [0xff; 4]);
    assert_eq!(u32_to_le(0), [0; 4]);
}

#[test]
fn clients_name_kinds_in_upper_case() {
    assert_eq!(MsgType::from_request_code(b'A'), Some(MsgType::Hello));
    assert_eq!(MsgType::from_request_code(b'Z'), Some(MsgType::Shutdown));
    assert_eq!(MsgType::from_request_code(b'H'), Some(MsgType::Heartbeat));
    assert_eq!(MsgType::from_request_code(b'F'), Some(MsgType::Faceposition));
    assert_eq!(MsgType::from_request_code(b'L'), Some(MsgType::Luminosity));
    assert_eq!(MsgType::from_request_code(b'a'), None);
    assert_eq!(MsgType::from_request_code(0), None);
    assert_eq!(MsgType::Hello.request_code(), Some(b'A'));
    assert_eq!(MsgType::Shutdown.request_code(), Some(b'Z'));
    assert_eq!(MsgType::Heartbeat.request_code(), Some(b'H'));
    assert_eq!(MsgType::Faceposition.request_code(), Some(b'F'));
    assert_eq!(MsgType::Luminosity.request_code(), Some(b'L'));
    assert_eq!(MsgType::Empty.request_code(), None);
}

#[test]
fn the_server_names_kinds_in_lower_case() {
    assert_eq!(MsgType::Hello.response_code(), Some(b'a'));
    assert_eq!(MsgType::Shutdown.response_code(), Some(b'z'));
    assert_eq!(MsgType::Faceposition.response_code(), Some(b'f'));
    assert_eq!(MsgType::Luminosity.response_code(), Some(b'l'));
    assert_eq!(MsgType::Heartbeat.response_code(), None);
    assert_eq!(MsgType::Empty.response_code(), None);
}

#[test]
fn from_raw_reads_a_hello() {
    let raw = [0x00, 0x41, 0x00, 0x00, 0x00, 0x00, 0xde, 0xad, 0xbe, 0xef];
    assert_eq!(
        Header::from_raw(&raw),
        Ok(Header { version: 0, msg_type: MsgType::Hello, msg_len: 0, msg_id: 0xefbe_adde })
    );
}

#[test]
fn from_raw_reads_length_and_id() {
    let raw = [0, b'F', 22, 1, 0, 0, 7, 0, 0, 0];
    assert_eq!(
        Header::from_raw(&raw),
        Ok(Header { version: 0, msg_type: MsgType::Faceposition, msg_len: 278, msg_id: 7 })
    );
}

#[test]
fn from_raw_refuses_another_version() {
    let raw = [1, b'A', 0, 0, 0, 0, 0, 0, 0, 0];
    assert_eq!(Header::from_raw(&raw), Err(invalid_request()));
}

#[test]
fn from_raw_refuses_an_unknown_type() {
    for code in [0u8, b'a', b'B', b'z', 0xff] {
        let raw = [0, code, 0, 0, 0, 0, 0, 0, 0, 0];
        assert_eq!(Header::from_raw(&raw), Err(invalid_request()));
    }
}

#[test]
fn writing_then_reading_a_header_gives_it_back() {
    for msg_type in [
        MsgType::Hello,
        MsgType::Shutdown,
        MsgType::Heartbeat,
        MsgType::Faceposition,
        MsgType::Luminosity,
    ] {
        for (msg_len, msg_id) in [(0, 0), (1, 2), (0x0102_0304, 0xa0b0_c0d0), (u32::MAX, u32::MAX)] {
            let header = Header { version: 0, msg_type, msg_len, msg_id };
            assert_eq!(Header::from_raw(&header.to_raw()), Ok(header));
        }
    }
}

#[test]
fn reading_then_writing_a_header_gives_the_bytes_back() {
    let raw = [0, b'L', 0x10, 0x20, 0x30, 0x40, 0x01, 0x02, 0x03, 0x04];
    assert_eq!(Header::from_raw(&raw).unwrap().to_raw(), raw);
}

#[test]
fn a_message_is_its_header_and_its_body() {
    let mut buf = vec![9, 9, 9];
    encode_message(&mut buf, MsgType::Faceposition, b"{\"a\":1}", 0x0403_0201);
    assert_eq!(
        buf,
        vec![0, b'f', 7, 0, 0, 0, 1, 2, 3, 4, b'{', b'"', b'a', b'"', b':', b'1', b'}']
    );
}

#[test]
fn a_shutdown_message_has_no_body() {
    let mut buf = Vec::new();
    encode_message(&mut buf, MsgType::Shutdown, &[], 0xefbe_adde);
    assert_eq!(buf, vec![0x00, 0x7a, 0, 0, 0, 0, 0xde, 0xad, 0xbe, 0xef]);
}

#[test]
fn a_message_states_the_length_of_a_long_body() {
    let body = vec![b'x'; 300];
    let mut buf = Vec::new();
    encode_message(&mut buf, MsgType::Hello, &body, 1);
    assert_eq!(&buf[..10], &[0, b'a', 0x2c, 0x01, 0, 0, 1, 0, 0, 0]);
    assert_eq!(&buf[10..], &body[..]);
}
