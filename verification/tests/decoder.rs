use mc_proxy::mc::handshake::Handshake;
use mc_proxy::mc::{read_string, read_varint, DecodeError};
use tokio_util::bytes::Bytes;

fn encode_varint(value: i32) -> Vec<u8> {
    let mut rest = value as u32;
    let mut out = Vec::new();
    loop {
        if rest & !0x7f == 0 {
            out.push(rest as u8);
            return out;
        }
        out.push((rest as u8 & 0x7f) | 0x80);
        rest >>= 7;
    }
}

fn encode_string(text: &str) -> Vec<u8> {
    let mut out = encode_varint(text.len() as i32);
    out.extend_from_slice(text.as_bytes());
    out
}

fn frame(packet_id: i32, version: i32, address: &str, port: u16, next_state: i32) -> Vec<u8> {
    let mut body = encode_varint(packet_id);
    body.extend(encode_varint(version));
    body.extend(encode_string(address));
    body.extend_from_slice(&port.to_be_bytes());
    body.extend(encode_varint(next_state));
    let mut out = encode_varint(body.len() as i32);
    out.extend(body);
    out
}

fn decode(bytes: &[u8]) -> (Result<i32, DecodeError>, Vec<u8>) {
    let mut src = Bytes::copy_from_slice(bytes);
    let result = read_varint(&mut src);
    (result, src.to_vec())
}

#[test]
fn varint_round_trips() {
    for value in [0, 127, 128, 300, i32::MAX] {
        let (decoded, rest) = decode(&encode_varint(value));
        assert_eq!(decoded, Ok(value));
        assert!(rest.is_empty());
    }
}

#[test]
fn varint_round_trips_negative_values() {
    for value in [-1, i32::MIN, -300] {
        let encoded = encode_varint(value);
        assert_eq!(encoded.len(), 5);
        assert_eq!(decode(&encoded).0, Ok(value));
    }
}

#[test]
fn varint_known_encodings() {
    assert_eq!(decode(&[0x00]).0, Ok(0));
    assert_eq!(decode(&[0x7f]).0, Ok(127));
    assert_eq!(decode(&[0x80, 0x01]).0, Ok(128));
    assert_eq!(decode(&[0xac, 0x02]).0, Ok(300));
    assert_eq!(decode(&[0xff, 0xff, 0xff, 0xff, 0x07]).0, Ok(i32::MAX));
    assert_eq!(decode(&[0xff, 0xff, 0xff, 0xff, 0x0f]).0, Ok(-1));
    assert_eq!(decode(&[0x80, 0x80, 0x80, 0x80, 0x08]).0, Ok(i32::MIN));
}

#[test]
fn varint_fifth_byte_is_cut_to_32_bits() {
    assert_eq!(decode(&[0xff, 0xff, 0xff, 0xff, 0x7f]).0, Ok(-1));
    assert_eq!(decode(&[0x80, 0x80, 0x80, 0x80, 0x10]).0, Ok(0));
    assert_eq!(decode(&[0x01, 0xff]).0, Ok(1));
}

#[test]
fn varint_six_byte_continuation_is_too_big() {
    let (result, rest) = decode(&[0x80, 0x80, 0x80, 0x80, 0x80, 0x01]);
    assert_eq!(result, Err(DecodeError::VarIntTooBig));
    assert_eq!(rest, vec![0x01]);
    assert_eq!(decode(&[0xff, 0xff, 0xff, 0xff, 0xff]).0, Err(DecodeError::VarIntTooBig));
}

#[test]
fn varint_truncated_is_incomplete() {
    assert_eq!(decode(&[]).0, Err(DecodeError::VarIntIncomplete));
    assert_eq!(decode(&[0x80]).0, Err(DecodeError::VarIntIncomplete));
    let (result, rest) = decode(&[0xff, 0xff, 0xff, 0xff]);
    assert_eq!(result, Err(DecodeError::VarIntIncomplete));
    assert!(rest.is_empty());
}

#[test]
fn varint_leaves_the_rest_unread() {
    let (result, rest) = decode(&[0xac, 0x02, 0x05, 0x06]);
    assert_eq!(result, Ok(300));
    assert_eq!(rest, vec![0x05, 0x06]);
    let (second, rest) = decode(&rest);
    assert_eq!(second, Ok(5));
    assert_eq!(rest, vec![0x06]);
}

#[test]
fn string_decodes_exactly() {
    let mut src = Bytes::from(encode_string("mc.example.com"));
    assert_eq!(read_string(&mut src), Ok("mc.example.com".to_string()));
    assert_eq!(src.len(), 0);
}

#[test]
fn string_takes_only_its_declared_length() {
    let mut bytes = encode_string("abc");
    bytes.extend_from_slice(b"def");
    let mut src = Bytes::from(bytes);
    assert_eq!(read_string(&mut src), Ok("abc".to_string()));
    assert_eq!(src.to_vec(), b"def".to_vec());
}

#[test]
fn string_of_length_zero() {
    let mut src = Bytes::from(vec![0x00, 0x41]);
    assert_eq!(read_string(&mut src), Ok(String::new()));
    assert_eq!(src.to_vec(), vec![0x41]);
}

#[test]
fn string_with_multibyte_text() {
    let text = "h\u{e9}llo \u{4e16}\u{754c} \u{1f600}";
    let mut src = Bytes::from(encode_string(text));
    assert_eq!(read_string(&mut src), Ok(text.to_string()));
}

#[test]
fn string_longer_than_the_input_is_rejected() {
    let mut src = Bytes::from(vec![0x05, b'a', b'b', b'c', b'd']);
    assert_eq!(read_string(&mut src), Err(DecodeError::StringLengthMismatch));
    assert_eq!(src.to_vec(), b"abcd".to_vec());
}

#[test]
fn string_with_negative_length_is_rejected() {
    let mut bytes = encode_varint(-1);
    bytes.extend_from_slice(b"abc");
    let mut src = Bytes::from(bytes);
    assert_eq!(read_string(&mut src), Err(DecodeError::StringLengthMismatch));
}

#[test]
fn string_with_invalid_utf8_is_rejected() {
    let mut src = Bytes::from(vec![0x02, 0xc3, 0x28, 0x41]);
    assert_eq!(read_string(&mut src), Err(DecodeError::InvalidUtf8));
    assert_eq!(src.to_vec(), vec![0x41]);
    let mut src = Bytes::from(vec![0x01, 0xff]);
    assert_eq!(read_string(&mut src), Err(DecodeError::InvalidUtf8));
}

#[test]
fn string_with_broken_length_prefix() {
    let mut src = Bytes::from(vec![0x80]);
    assert_eq!(read_string(&mut src), Err(DecodeError::VarIntIncomplete));
    let mut src = Bytes::from(vec![0x80, 0x80, 0x80, 0x80, 0x80, 0x00]);
    assert_eq!(read_string(&mut src), Err(DecodeError::VarIntTooBig));
}

#[test]
fn handshake_decodes() {
    let bytes = frame(0, 767, "mc.example.com", 25565, 2);
    let handshake = Handshake::parse_handshake(Bytes::from(bytes)).unwrap();
    assert_eq!(handshake.protocol_version, 767);
    assert_eq!(handshake.server_address, "mc.example.com");
    assert_eq!(handshake.server_port, 25565);
    assert_eq!(handshake.next_state, 2);
}

#[test]
fn handshake_from_raw_bytes() {
    let bytes = vec![
        0x0a, 0x00, 0xff, 0x05, 0x03, b'a', b'.', b'b', 0x63, 0xdd, 0x01,
    ];
    let handshake = Handshake::parse_handshake(Bytes::from(bytes)).unwrap();
    assert_eq!(handshake.protocol_version, 767);
    assert_eq!(handshake.server_address, "a.b");
    assert_eq!(handshake.server_port, 0x63dd);
    assert_eq!(handshake.next_state, 1);
}

#[test]
fn handshake_port_is_big_endian() {
    let bytes = frame(0, 1, "h", 0x0102, 1);
    let handshake = Handshake::parse_handshake(Bytes::from(bytes)).unwrap();
    assert_eq!(handshake.server_port, 258);
}

#[test]
fn handshake_ignores_the_frame_length_and_what_follows() {
    let mut bytes = frame(0, 47, "play.example.org", 1, 1);
    bytes[0] = 0x7f;
    bytes.extend_from_slice(&[0xde, 0xad, 0xbe, 0xef]);
    let handshake = Handshake::parse_handshake(Bytes::from(bytes)).unwrap();
    assert_eq!(handshake.protocol_version, 47);
    assert_eq!(handshake.server_address, "play.example.org");
    assert_eq!(handshake.server_port, 1);
    assert_eq!(handshake.next_state, 1);
}

#[test]
fn handshake_with_other_packet_id_is_rejected() {
    for packet_id in [1, 2, 127, 128, -1] {
        let bytes = frame(packet_id, 767, "mc.example.com", 25565, 2);
        let result = Handshake::parse_handshake(Bytes::from(bytes));
        assert_eq!(result.err(), Some(DecodeError::NotHandshake));
    }
}

#[test]
fn handshake_with_other_packet_id_and_nothing_behind_it() {
    let result = Handshake::parse_handshake(Bytes::from(vec![0x01, 0x05]));
    assert_eq!(result.err(), Some(DecodeError::NotHandshake));
}

#[test]
fn handshake_without_port_is_rejected() {
    let mut bytes = vec![0x05, 0x00, 0x01];
    bytes.extend(encode_string("h"));
    bytes.push(0x63);
    let result = Handshake::parse_handshake(Bytes::from(bytes));
    assert_eq!(result.err(), Some(DecodeError::MissingPort));
}

#[test]
fn handshake_truncated_at_each_field() {
    let whole = frame(0, 767, "mc.example.com", 25565, 2);
    let expected = [
        (0, DecodeError::VarIntIncomplete),
        (1, DecodeError::VarIntIncomplete),
        (2, DecodeError::VarIntIncomplete),
        (3, DecodeError::VarIntIncomplete),
        (4, DecodeError::VarIntIncomplete),
        (5, DecodeError::StringLengthMismatch),
        (18, DecodeError::StringLengthMismatch),
        (19, DecodeError::MissingPort),
        (20, DecodeError::MissingPort),
        (21, DecodeError::VarIntIncomplete),
    ];
    for (len, error) in expected {
        let result = Handshake::parse_handshake(Bytes::copy_from_slice(&whole[..len]));
        assert_eq!(result.err(), Some(error), "cut at {}", len);
    }
    assert!(Handshake::parse_handshake(Bytes::from(whole)).is_ok());
}

#[test]
fn handshake_with_invalid_address_text() {
    let bytes = vec![0x07, 0x00, 0x01, 0x02, 0xc3, 0x28, 0x63, 0xdd, 0x01];
    let result = Handshake::parse_handshake(Bytes::from(bytes));
    assert_eq!(result.err(), Some(DecodeError::InvalidUtf8));
}

#[test]
fn handshake_with_oversized_integer() {
    let bytes = vec![0x80, 0x80, 0x80, 0x80, 0x80, 0x00];
    let result = Handshake::parse_handshake(Bytes::from(bytes));
    assert_eq!(result.err(), Some(DecodeError::VarIntTooBig));
}

#[test]
fn decode_error_texts() {
    assert_eq!(DecodeError::VarIntIncomplete.message(), "VarInt incomplete");
    assert_eq!(DecodeError::VarIntTooBig.message(), "VarInt is too big");
    assert_eq!(DecodeError::StringLengthMismatch.message(), "String length mismatch");
    assert_eq!(DecodeError::InvalidUtf8.message(), "Invalid UTF-8");
    assert_eq!(DecodeError::NotHandshake.message(), "not a handshake packet");
    assert_eq!(DecodeError::MissingPort.message(), "missing port");
}

#[test]
fn decode_error_kinds() {
    assert!(DecodeError::VarIntIncomplete.is_truncation());
    assert!(DecodeError::StringLengthMismatch.is_truncation());
    assert!(DecodeError::MissingPort.is_truncation());
    assert!(!DecodeError::VarIntTooBig.is_truncation());
    assert!(!DecodeError::InvalidUtf8.is_truncation());
    assert!(!DecodeError::NotHandshake.is_truncation());
}
