use contrapunk::server::protocol::frame_body_len;
use contrapunk::server::config::ServerConfig;
use contrapunk::server::protocol::{
    parse_message, read_message, serialize_message, write_message, ByteCursor, Message, ProtocolError,
};

fn roundtrip(msg: &Message) -> Message {
    let mut buf = Vec::new();
    write_message(&mut buf, msg).unwrap();
    let mut cursor = ByteCursor::new(buf);
    read_message(&mut cursor).unwrap()
}

#[test]
fn test_roundtrip_midi_data() {
    let msg = Message::MidiData(vec![0x90, 0x3C, 0x7F]);
    let decoded = roundtrip(&msg);
    assert_eq!(decoded, msg);
}

#[test]
fn test_roundtrip_configure() {
    let msg = Message::Configure { key: 0, mode: 2, octave_mode: 1, voice_count: 4 };
    let decoded = roundtrip(&msg);
    assert_eq!(decoded, msg);
}

#[test]
fn test_roundtrip_ack() {
    let msg = Message::Ack;
    assert_eq!(roundtrip(&msg), msg);
}

#[test]
fn test_roundtrip_disconnect() {
    let msg = Message::Disconnect;
    assert_eq!(roundtrip(&msg), msg);
}

#[test]
fn test_roundtrip_heartbeat() {
    let msg = Message::Heartbeat;
    assert_eq!(roundtrip(&msg), msg);
}

#[test]
fn frame_is_big_endian_length_then_body() {
    let mut buf = vec![0xAA];
    write_message(&mut buf, &Message::Configure { key: 1, mode: 2, octave_mode: 3, voice_count: 4 }).unwrap();
    assert_eq!(buf, vec![0xAA, 0x00, 0x05, 0x02, 1, 2, 3, 4]);
}

#[test]
fn serialize_puts_type_byte_first() {
    assert_eq!(serialize_message(&Message::MidiData(vec![1, 2])), vec![0x01, 1, 2]);
    assert_eq!(serialize_message(&Message::Ack), vec![0x03]);
    assert_eq!(serialize_message(&Message::Disconnect), vec![0x04]);
    assert_eq!(serialize_message(&Message::Heartbeat), vec![0x05]);
}

#[test]
fn parse_rejects_empty_buffer() {
    assert_eq!(parse_message(&[]), Err(ProtocolError::EmptyBuffer));
}

#[test]
fn parse_rejects_unknown_type() {
    assert_eq!(parse_message(&[0x09, 1]), Err(ProtocolError::UnknownType(0x09)));
}

#[test]
fn parse_rejects_short_configure() {
    assert_eq!(parse_message(&[0x02, 1, 2, 3]), Err(ProtocolError::ConfigureTooShort(3)));
}

#[test]
fn parse_configure_ignores_extra_bytes() {
    assert_eq!(
        parse_message(&[0x02, 1, 2, 3, 4, 5]),
        Ok(Message::Configure { key: 1, mode: 2, octave_mode: 3, voice_count: 4 })
    );
}

#[test]
fn read_rejects_zero_length() {
    let mut cursor = ByteCursor::new(vec![0, 0, 0x03]);
    assert_eq!(read_message(&mut cursor), Err(ProtocolError::ZeroLength));
    assert_eq!(cursor.remaining(), 1);
}

#[test]
fn read_reports_truncated_frames() {
    let mut cursor = ByteCursor::new(vec![0]);
    assert_eq!(read_message(&mut cursor), Err(ProtocolError::UnexpectedEof));
    let mut cursor = ByteCursor::new(vec![0, 4, 0x01, 0x90]);
    assert_eq!(read_message(&mut cursor), Err(ProtocolError::UnexpectedEof));
    assert_eq!(cursor.remaining(), 0);
}

#[test]
fn consecutive_messages_read_in_order() {
    let mut buf = Vec::new();
    write_message(&mut buf, &Message::Heartbeat).unwrap();
    write_message(&mut buf, &Message::MidiData(vec![0x80, 60, 0])).unwrap();
    let mut cursor = ByteCursor::new(buf);
    assert_eq!(read_message(&mut cursor), Ok(Message::Heartbeat));
    assert_eq!(read_message(&mut cursor), Ok(Message::MidiData(vec![0x80, 60, 0])));
    assert_eq!(cursor.remaining(), 0);
}

#[test]
fn cursor_read_exact() {
    let mut cursor = ByteCursor::new(vec![1, 2, 3]);
    assert_eq!(cursor.read_exact(2), Some(vec![1, 2]));
    assert_eq!(cursor.remaining(), 1);
    assert_eq!(cursor.read_exact(2), None);
    assert_eq!(cursor.remaining(), 0);
}

#[test]
fn server_config_defaults() {
    let c = ServerConfig::default();
    assert_eq!(c.port, 9900);
    assert_eq!(c.max_clients, 10);
}

#[test]
fn frame_header_length_is_big_endian() {
    assert_eq!(frame_body_len(0x01, 0x02), 258);
    assert_eq!(frame_body_len(0, 5), 5);
}
