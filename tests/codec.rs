use monoio_pg::codec::{frame_extent, Decoded, PostgresCodec};
use monoio_pg::message::BackendMessage;
use monoio_pg::Error;

fn frame(tag: u8, body: &[u8]) -> Vec<u8> {
    let mut v = vec![tag];
    v.extend_from_slice(&((body.len() as i32 + 4).to_be_bytes()));
    v.extend_from_slice(body);
    v
}

#[test]
fn test_codec_decode_ready_for_query() {
    let mut codec = PostgresCodec::new();
    let mut src: Vec<u8> = b"Z\x00\x00\x00\x05I".to_vec();
    let msg = codec.decode(&mut src).unwrap();
    match msg {
        Decoded::Item(BackendMessage::ReadyForQuery { .. }) => {}
        _ => panic!("Expected ReadyForQuery"),
    }
}

#[test]
fn test_codec_decode_incomplete() {
    let mut codec = PostgresCodec::new();
    let mut src: Vec<u8> = b"Z\x00\x00\x00".to_vec();
    let msg = codec.decode(&mut src).unwrap();
    assert!(matches!(msg, Decoded::Insufficient));
}

#[test]
fn partial_frame_takes_nothing_then_whole_frame_is_taken() {
    let mut codec = PostgresCodec::new();
    let whole = frame(b'C', b"SELECT 1\0");
    let mut src: Vec<u8> = whole[..7].to_vec();
    assert!(matches!(codec.decode(&mut src), Ok(Decoded::Insufficient)));
    assert_eq!(src, whole[..7].to_vec());
    src.extend_from_slice(&whole[7..]);
    src.extend_from_slice(b"Z\x00");
    match codec.decode(&mut src) {
        Ok(Decoded::Item(BackendMessage::CommandComplete { command })) => assert_eq!(command, b"SELECT 1".to_vec()),
        _ => panic!("expected CommandComplete"),
    }
    assert_eq!(src, b"Z\x00".to_vec());
}

#[test]
fn ready_status_byte_is_kept() {
    let mut codec = PostgresCodec::new();
    let mut src: Vec<u8> = b"Z\x00\x00\x00\x05T".to_vec();
    match codec.decode(&mut src) {
        Ok(Decoded::Item(BackendMessage::ReadyForQuery { status })) => assert_eq!(status, b'T'),
        _ => panic!("expected ReadyForQuery"),
    }
    assert!(src.is_empty());
}

#[test]
fn declared_length_below_four_is_an_error() {
    let mut codec = PostgresCodec::new();
    let mut src: Vec<u8> = b"Z\x00\x00\x00\x03I".to_vec();
    assert!(matches!(codec.decode(&mut src), Err(Error::Protocol(_))));
    assert_eq!(src.len(), 6);
}

#[test]
fn unknown_tag_is_a_parse_error_and_the_frame_is_consumed() {
    let mut codec = PostgresCodec::new();
    let mut src = frame(b'?', b"");
    assert!(matches!(codec.decode(&mut src), Err(Error::Protocol(_))));
    assert!(src.is_empty());
}

#[test]
fn trailing_bytes_in_a_body_are_an_error() {
    let mut codec = PostgresCodec::new();
    let mut src = frame(b'1', b"x");
    assert!(matches!(codec.decode(&mut src), Err(Error::Protocol(_))));
}

#[test]
fn authentication_requests_are_parsed() {
    let mut codec = PostgresCodec::new();
    let mut src = frame(b'R', &[0, 0, 0, 5, 0xde, 0xad, 0xbe, 0xef]);
    src.extend(frame(b'R', &[0, 0, 0, 0]));
    src.extend(frame(b'R', &[0, 0, 0, 3]));
    src.extend(frame(b'R', b"\x00\x00\x00\x0bserver"));
    match codec.decode(&mut src) {
        Ok(Decoded::Item(BackendMessage::AuthenticationMd5Password { salt })) => assert_eq!(salt, vec![0xde, 0xad, 0xbe, 0xef]),
        _ => panic!("expected MD5 request"),
    }
    assert!(matches!(codec.decode(&mut src), Ok(Decoded::Item(BackendMessage::AuthenticationOk))));
    assert!(matches!(codec.decode(&mut src), Ok(Decoded::Item(BackendMessage::AuthenticationCleartextPassword))));
    match codec.decode(&mut src) {
        Ok(Decoded::Item(BackendMessage::AuthenticationSaslContinue { data })) => assert_eq!(data, b"server".to_vec()),
        _ => panic!("expected SASL continue"),
    }
    assert!(src.is_empty());
}

#[test]
fn unknown_authentication_code_is_an_error() {
    let mut codec = PostgresCodec::new();
    let mut src = frame(b'R', &[0, 0, 0, 99]);
    assert!(matches!(codec.decode(&mut src), Err(Error::Protocol(_))));
}

#[test]
fn parameter_status_and_backend_key_are_parsed() {
    let mut codec = PostgresCodec::new();
    let mut src = frame(b'S', b"TimeZone\0UTC\0");
    src.extend(frame(b'K', &[0, 0, 0, 7, 0xff, 0xff, 0xff, 0xfe]));
    match codec.decode(&mut src) {
        Ok(Decoded::Item(BackendMessage::ParameterStatus { name, value })) => {
            assert_eq!(name, b"TimeZone".to_vec());
            assert_eq!(value, b"UTC".to_vec());
        }
        _ => panic!("expected ParameterStatus"),
    }
    match codec.decode(&mut src) {
        Ok(Decoded::Item(BackendMessage::BackendKeyData { process_id, secret_key })) => {
            assert_eq!(process_id, 7);
            assert_eq!(secret_key, -2);
        }
        _ => panic!("expected BackendKeyData"),
    }
}

#[test]
fn row_description_and_data_row_are_parsed() {
    let mut body = vec![0u8, 2];
    body.extend_from_slice(b"id\0");
    body.extend_from_slice(&[0, 0, 0, 0, 0, 0, 0, 0, 0, 23, 0, 4, 0xff, 0xff, 0xff, 0xff, 0, 1]);
    body.extend_from_slice(b"name\0");
    body.extend_from_slice(&[0, 0, 0x40, 0x01, 0, 2, 0, 0, 0, 25, 0xff, 0xff, 0xff, 0xff, 0xff, 0xff, 0, 1]);
    let mut src = frame(b'T', &body);
    src.extend(frame(b'D', &[0, 3, 0, 0, 0, 1, 7, 0xff, 0xff, 0xff, 0xff, 0, 0, 0, 0]));
    let mut codec = PostgresCodec::new();
    match codec.decode(&mut src) {
        Ok(Decoded::Item(BackendMessage::RowDescription { columns })) => {
            assert_eq!(columns.len(), 2);
            assert_eq!(columns[0].name, "id");
            assert_eq!(columns[0].type_oid, 23);
            assert_eq!(columns[0].type_len, 4);
            assert_eq!(columns[0].type_mod, -1);
            assert_eq!(columns[0].format, 1);
            assert_eq!(columns[1].name, "name");
            assert_eq!(columns[1].table_oid, 0x4001);
            assert_eq!(columns[1].column_id, 2);
            assert_eq!(columns[1].type_oid, 25);
            assert_eq!(columns[1].type_len, -1);
        }
        _ => panic!("expected RowDescription"),
    }
    match codec.decode(&mut src) {
        Ok(Decoded::Item(BackendMessage::DataRow { values })) => {
            assert_eq!(values, vec![Some(vec![7u8]), None, Some(vec![])]);
        }
        _ => panic!("expected DataRow"),
    }
}

#[test]
fn data_row_with_short_value_is_an_error() {
    let mut codec = PostgresCodec::new();
    let mut src = frame(b'D', &[0, 1, 0, 0, 0, 5, 1]);
    assert!(matches!(codec.decode(&mut src), Err(Error::Protocol(_))));
}

#[test]
fn error_response_keeps_the_first_field() {
    let mut codec = PostgresCodec::new();
    let mut src = frame(b'E', b"SERROR\0Msyntax error\0\0");
    src.extend(frame(b'E', b"\0"));
    match codec.decode(&mut src) {
        Ok(Decoded::Item(BackendMessage::ErrorResponse { message })) => assert_eq!(message, Some(b"ERROR".to_vec())),
        _ => panic!("expected ErrorResponse"),
    }
    match codec.decode(&mut src) {
        Ok(Decoded::Item(BackendMessage::ErrorResponse { message })) => assert_eq!(message, None),
        _ => panic!("expected ErrorResponse"),
    }
}

#[test]
fn ignored_kinds_are_reported_as_other() {
    let mut codec = PostgresCodec::new();
    let mut src = frame(b'N', b"SNOTICE\0\0");
    assert!(matches!(codec.decode(&mut src), Ok(Decoded::Item(BackendMessage::Other { tag: b'N' }))));
}

#[test]
fn encode_passes_bytes_through() {
    let mut codec = PostgresCodec::new();
    let mut dst = vec![1u8];
    assert!(codec.encode(vec![2, 3], &mut dst).is_ok());
    assert_eq!(dst, vec![1, 2, 3]);
}

#[test]
fn large_declared_length_is_insufficient() {
    let mut codec = PostgresCodec::new();
    let mut src: Vec<u8> = vec![0x5a, 0x80, 0x00, 0x00, 0x00];
    assert!(matches!(codec.decode(&mut src), Ok(Decoded::Insufficient)));
    assert_eq!(src, vec![0x5a, 0x80, 0x00, 0x00, 0x00]);
    let mut src: Vec<u8> = vec![0x5a, 0xff, 0xff, 0xff, 0xff, 0x49];
    assert!(matches!(codec.decode(&mut src), Ok(Decoded::Insufficient)));
    assert_eq!(src.len(), 6);
}

#[test]
fn frame_extent_covers_the_first_frame() {
    let mut src = frame(b'1', b"");
    src.extend(frame(b'2', b""));
    assert_eq!(frame_extent(&src), 5);
    assert_eq!(frame_extent(&src[..4]), 0);
    assert_eq!(frame_extent(b"Z\x00\x00\x00\x02"), 5);
    assert_eq!(frame_extent(b"Z\x80\x00\x00\x00"), 0);
}

#[test]
fn ignored_kinds_must_keep_their_layout() {
    let mut codec = PostgresCodec::new();
    let mut src = frame(b'n', b"x");
    assert!(matches!(codec.decode(&mut src), Err(Error::Protocol(_))));
    let mut src = frame(b'A', b"\x00\x00\x00\x01chan\0payload\0");
    assert!(matches!(codec.decode(&mut src), Ok(Decoded::Item(BackendMessage::Other { tag: b'A' }))));
    let mut src = frame(b'A', b"\x00\x00\x00\x01chan\0");
    assert!(matches!(codec.decode(&mut src), Err(Error::Protocol(_))));
    let mut src = frame(b'G', b"\x00\x00");
    assert!(matches!(codec.decode(&mut src), Err(Error::Protocol(_))));
    let mut src = frame(b't', b"\x00\x00");
    assert!(matches!(codec.decode(&mut src), Ok(Decoded::Item(BackendMessage::Other { tag: b't' }))));
}
