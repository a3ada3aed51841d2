use monoio_pg::handshake::{Handshake, HandshakeAction};
use monoio_pg::message::BackendMessage;
use monoio_pg::pool::{Acquire, Pool};
use monoio_pg::query::{execute_request, prepare_request_for, query_request, CommandResponse, QueryResponse};
use monoio_pg::{Column, Error, Row};
use std::sync::Arc;

fn frame(tag: u8, body: &[u8]) -> Vec<u8> {
    let mut v = vec![tag];
    v.extend_from_slice(&((body.len() as i32 + 4).to_be_bytes()));
    v.extend_from_slice(body);
    v
}

fn column(name: &str, type_oid: u32) -> Column {
    Column { name: name.to_string(), table_oid: 0, column_id: 0, type_oid, type_len: 0, type_mod: -1, format: 1 }
}

#[test]
fn startup_frame_lists_user_database_and_encoding() {
    let h = Handshake::new("u", None, Some("db"));
    let mut body = vec![0u8, 3, 0, 0];
    body.extend_from_slice(b"user\0u\0database\0db\0client_encoding\0UTF8\0\0");
    let mut expected = ((body.len() as i32 + 4).to_be_bytes()).to_vec();
    expected.extend_from_slice(&body);
    assert_eq!(h.startup().unwrap(), expected);
}

#[test]
fn startup_frame_without_database() {
    let h = Handshake::new("u", None, None);
    let mut body = vec![0u8, 3, 0, 0];
    body.extend_from_slice(b"user\0u\0client_encoding\0UTF8\0\0");
    let mut expected = ((body.len() as i32 + 4).to_be_bytes()).to_vec();
    expected.extend_from_slice(&body);
    assert_eq!(h.startup().unwrap(), expected);
}

#[test]
fn cleartext_request_needs_a_password() {
    let mut h = Handshake::new("user", None, None);
    assert!(matches!(h.on_message(BackendMessage::AuthenticationCleartextPassword), Err(Error::Authentication(_))));
}

#[test]
fn cleartext_request_sends_the_password() {
    let mut h = Handshake::new("user", Some("pw"), None);
    match h.on_message(BackendMessage::AuthenticationCleartextPassword) {
        Ok(HandshakeAction::Send(f)) => assert_eq!(f, frame(b'p', b"pw\0")),
        _ => panic!("expected a password frame"),
    }
}

#[test]
fn md5_request_sends_the_salted_hash() {
    let mut h = Handshake::new("postgres", Some("secret"), None);
    match h.on_message(BackendMessage::AuthenticationMd5Password { salt: vec![0xde, 0xad, 0xbe, 0xef] }) {
        Ok(HandshakeAction::Send(f)) => assert_eq!(f, frame(b'p', b"md5c546d0bbed2af888b328536b45c76348\0")),
        _ => panic!("expected a password frame"),
    }
    let mut no_password = Handshake::new("postgres", None, None);
    assert!(matches!(
        no_password.on_message(BackendMessage::AuthenticationMd5Password { salt: vec![1, 2, 3, 4] }),
        Err(Error::Authentication(_))
    ));
}

#[test]
fn sasl_request_sends_the_client_first_message() {
    let mut h = Handshake::new("user", Some("pw"), None);
    match h.on_message(BackendMessage::AuthenticationSasl { mechanisms: b"SCRAM-SHA-256\0\0".to_vec() }) {
        Ok(HandshakeAction::Send(f)) => {
            assert_eq!(f[0], b'p');
            assert_eq!(&f[5..19], b"SCRAM-SHA-256\0");
            let data_len = i32::from_be_bytes([f[19], f[20], f[21], f[22]]) as usize;
            let data = &f[23..];
            assert_eq!(data.len(), data_len);
            assert!(data.starts_with(b"n,,n=user,r="));
            assert_eq!(data.len(), "n,,n=user,r=".len() + 32);
        }
        _ => panic!("expected a SASL initial response"),
    }
}

#[test]
fn sasl_continue_or_final_without_state_fails() {
    let mut h = Handshake::new("user", Some("pw"), None);
    assert!(matches!(
        h.on_message(BackendMessage::AuthenticationSaslContinue { data: b"r=x,s=QUJD,i=1".to_vec() }),
        Err(Error::Authentication(_))
    ));
    let mut h = Handshake::new("user", Some("pw"), None);
    assert!(matches!(
        h.on_message(BackendMessage::AuthenticationSaslFinal { data: b"v=AAAA".to_vec() }),
        Err(Error::Authentication(_))
    ));
}

#[test]
fn error_response_aborts_with_its_text() {
    let mut h = Handshake::new("user", Some("pw"), None);
    match h.on_message(BackendMessage::ErrorResponse { message: Some(b"FATAL".to_vec()) }) {
        Err(Error::Authentication(t)) => assert_eq!(t, "FATAL"),
        _ => panic!("expected an authentication error"),
    }
    match h.on_message(BackendMessage::ErrorResponse { message: None }) {
        Err(Error::Authentication(t)) => assert_eq!(t, "Unknown error"),
        _ => panic!("expected an authentication error"),
    }
}

#[test]
fn handshake_reads_on_until_ready() {
    let mut h = Handshake::new("user", Some("pw"), None);
    assert!(matches!(h.on_message(BackendMessage::AuthenticationOk), Ok(HandshakeAction::Wait)));
    assert!(matches!(
        h.on_message(BackendMessage::ParameterStatus { name: b"server_version".to_vec(), value: b"16.1".to_vec() }),
        Ok(HandshakeAction::Wait)
    ));
    assert!(matches!(
        h.on_message(BackendMessage::BackendKeyData { process_id: 1, secret_key: 2 }),
        Ok(HandshakeAction::Wait)
    ));
    assert!(matches!(h.on_message(BackendMessage::Other { tag: b'N' }), Ok(HandshakeAction::Wait)));
    assert!(matches!(h.on_message(BackendMessage::ReadyForQuery { status: b'I' }), Ok(HandshakeAction::Ready)));
    assert_eq!(h.session_parameters(), &vec![("server_version".to_string(), "16.1".to_string())]);
}

#[test]
fn query_request_batches_five_frames() {
    let mut expected = frame(b'P', b"\0SELECT 1\0\0\0");
    expected.extend(frame(b'B', &[0, 0, 0, 0, 0, 0, 0, 1, 0, 1]));
    expected.extend(frame(b'D', b"P\0"));
    expected.extend(frame(b'E', &[0, 0, 0, 0, 0]));
    expected.extend(frame(b'S', b""));
    assert_eq!(query_request("SELECT 1").unwrap(), expected);
}

#[test]
fn execute_and_prepare_requests() {
    assert_eq!(execute_request("BEGIN").unwrap(), frame(b'Q', b"BEGIN\0"));
    let mut expected = frame(b'P', b"s1\0SELECT 2\0\0\0");
    expected.extend(frame(b'S', b""));
    assert_eq!(prepare_request_for("s1", "SELECT 2").unwrap(), expected);
    assert!(matches!(execute_request("a\0b"), Err(Error::Protocol(_))));
}

#[test]
fn query_returns_one_row_with_two_columns() {
    let mut q = QueryResponse::new();
    assert!(!q.on_message(BackendMessage::ParseComplete));
    assert!(!q.on_message(BackendMessage::BindComplete));
    assert!(!q.on_message(BackendMessage::RowDescription { columns: vec![column("id", 23), column("name", 25)] }));
    assert!(!q.on_message(BackendMessage::DataRow { values: vec![Some(vec![0, 0, 0, 1]), Some(b"hello".to_vec())] }));
    assert!(!q.on_message(BackendMessage::CommandComplete { command: b"SELECT 1".to_vec() }));
    assert!(q.on_message(BackendMessage::ReadyForQuery { status: b'I' }));
    let rows = q.finish().unwrap();
    assert_eq!(rows.len(), 1);
    let (oid, raw) = rows[0].typed_input(0).unwrap();
    assert_eq!(oid, 23);
    assert_eq!(i32::from_be_bytes(raw.unwrap().as_slice().try_into().unwrap()), 1);
    let (oid, raw) = rows[0].typed_input(1).unwrap();
    assert_eq!(oid, 25);
    assert_eq!(raw.unwrap().as_slice(), b"hello");
    assert!(matches!(rows[0].typed_input(2), Err(Error::Parse(_))));
    assert_eq!(rows[0].columns[1].name, "name");
}

#[test]
fn query_error_is_reported_after_ready() {
    let mut q = QueryResponse::new();
    assert!(!q.on_message(BackendMessage::ErrorResponse { message: Some(b"ERROR".to_vec()) }));
    assert!(q.on_message(BackendMessage::ReadyForQuery { status: b'I' }));
    match q.finish() {
        Err(Error::Protocol(t)) => assert_eq!(t, "ERROR"),
        _ => panic!("expected the server error"),
    }
}

#[test]
fn failed_command_then_query_on_the_same_stream() {
    let mut c = CommandResponse::new();
    assert!(!c.on_message(BackendMessage::ErrorResponse { message: Some(b"syntax error".to_vec()) }));
    assert!(c.on_message(BackendMessage::ReadyForQuery { status: b'I' }));
    match c.finish() {
        Err(Error::Protocol(t)) => assert_eq!(t, "syntax error"),
        _ => panic!("expected the server error"),
    }
    let mut q = QueryResponse::new();
    assert!(!q.on_message(BackendMessage::RowDescription { columns: vec![column("?column?", 23)] }));
    assert!(!q.on_message(BackendMessage::DataRow { values: vec![Some(vec![0, 0, 0, 1])] }));
    assert!(q.on_message(BackendMessage::ReadyForQuery { status: b'I' }));
    assert_eq!(q.finish().unwrap().len(), 1);
}

#[test]
fn command_without_error_succeeds() {
    let mut c = CommandResponse::new();
    assert!(!c.on_message(BackendMessage::CommandComplete { command: b"CREATE TABLE".to_vec() }));
    assert!(c.on_message(BackendMessage::ReadyForQuery { status: b'I' }));
    assert!(c.finish().is_ok());
}

#[test]
fn null_column_has_no_raw_value() {
    let row = Row { columns: Arc::new(vec![column("a", 23), column("b", 25)]), data: vec![None, Some(b"x".to_vec())] };
    assert!(row.get_raw(0).is_none());
    assert_eq!(row.get_raw(1).unwrap().as_slice(), b"x");
    assert!(row.get_raw(2).is_none());
    let (oid, raw) = row.typed_input(0).unwrap();
    assert_eq!(oid, 23);
    assert!(raw.is_none());
}

#[test]
fn rows_share_one_column_list() {
    let mut q = QueryResponse::new();
    q.on_message(BackendMessage::RowDescription { columns: vec![column("a", 23)] });
    q.on_message(BackendMessage::DataRow { values: vec![None] });
    q.on_message(BackendMessage::DataRow { values: vec![Some(vec![1])] });
    q.on_message(BackendMessage::ReadyForQuery { status: b'I' });
    let rows = q.finish().unwrap();
    assert!(Arc::ptr_eq(&rows[0].columns, &rows[1].columns));
}

#[test]
fn pool_hands_back_the_released_connection() {
    let mut pool: Pool<u32> = Pool::new("127.0.0.1:5432", "user", Some("pw"), None);
    assert!(matches!(pool.get(), Acquire::Connect));
    pool.put(7);
    assert!(matches!(pool.get(), Acquire::Reuse(7)));
    assert!(matches!(pool.get(), Acquire::Connect));
}

#[test]
fn pool_is_first_in_first_out() {
    let mut pool: Pool<u32> = Pool::new("addr", "user", None, Some("db"));
    pool.put(1);
    pool.put(2);
    assert!(matches!(pool.get(), Acquire::Reuse(1)));
    assert!(matches!(pool.get(), Acquire::Reuse(2)));
    assert_eq!(pool.addr(), "addr");
    assert_eq!(pool.user(), "user");
    assert_eq!(pool.password(), None);
    assert_eq!(pool.database(), Some("db"));
}

#[test]
fn sasl_request_without_scram_is_refused() {
    let mut h = Handshake::new("user", Some("pw"), None);
    assert!(matches!(
        h.on_message(BackendMessage::AuthenticationSasl { mechanisms: b"SCRAM-SHA-256-PLUS\0\0".to_vec() }),
        Err(Error::Authentication(_))
    ));
    let mut h = Handshake::new("user", Some("pw"), None);
    assert!(matches!(
        h.on_message(BackendMessage::AuthenticationSasl { mechanisms: b"SCRAM-SHA-256-PLUS\0SCRAM-SHA-256\0\0".to_vec() }),
        Ok(HandshakeAction::Send(_))
    ));
}

#[test]
fn sasl_exchange_answers_and_checks_the_server() {
    let mut h = Handshake::new("user", Some("pencil"), None);
    assert!(matches!(
        h.on_message(BackendMessage::AuthenticationSasl { mechanisms: b"SCRAM-SHA-256\0\0".to_vec() }),
        Ok(HandshakeAction::Send(_))
    ));
    match h.on_message(BackendMessage::AuthenticationSaslContinue { data: b"r=abc,s=QUJD,i=2".to_vec() }) {
        Ok(HandshakeAction::Send(f)) => {
            assert_eq!(f[0], b'p');
            assert!(f[5..].starts_with(b"c=biws,r=abc,p="));
            assert_eq!(f.len(), 5 + "c=biws,r=abc,p=".len() + 44);
        }
        _ => panic!("expected the client-final message"),
    }
    assert!(matches!(
        h.on_message(BackendMessage::AuthenticationSaslFinal { data: b"v=AAAAAAAAAAAAAAAAAAAAAAAAAAAAAAAAAAAAAAAAAAA=".to_vec() }),
        Err(Error::Authentication(_))
    ));
}

#[test]
fn ready_before_authentication_is_refused() {
    let mut h = Handshake::new("user", Some("pw"), None);
    assert!(matches!(h.on_message(BackendMessage::ReadyForQuery { status: b'I' }), Err(Error::Protocol(_))));
}

#[test]
fn authentication_ok_needs_a_verified_server_after_scram() {
    let mut h = Handshake::new("user", Some("pencil"), None);
    assert!(matches!(
        h.on_message(BackendMessage::AuthenticationSasl { mechanisms: b"SCRAM-SHA-256\0\0".to_vec() }),
        Ok(HandshakeAction::Send(_))
    ));
    assert!(matches!(
        h.on_message(BackendMessage::AuthenticationSaslContinue { data: b"r=abc,s=QUJD,i=2".to_vec() }),
        Ok(HandshakeAction::Send(_))
    ));
    assert!(matches!(h.on_message(BackendMessage::AuthenticationOk), Err(Error::Authentication(_))));
}

#[test]
fn index_past_the_columns_names_the_index() {
    let row = Row { columns: Arc::new(vec![column("a", 23)]), data: vec![None] };
    match row.typed_input(1) {
        Err(Error::Parse(m)) => assert_eq!(m, "column index 1 out of bounds"),
        _ => panic!("expected a parse error"),
    }
    match row.typed_input(1207) {
        Err(Error::Parse(m)) => assert_eq!(m, "column index 1207 out of bounds"),
        _ => panic!("expected a parse error"),
    }
}

#[test]
fn decimal_text_of_numbers() {
    assert_eq!(monoio_pg::client::decimal_string(0), "0");
    assert_eq!(monoio_pg::client::decimal_string(10), "10");
    assert_eq!(monoio_pg::client::decimal_string(usize::MAX), usize::MAX.to_string());
}

#[test]
fn repeated_parameter_keeps_the_last_value() {
    let mut h = Handshake::new("user", Some("pw"), None);
    for (n, v) in [("a", "1"), ("b", "2"), ("a", "3")] {
        assert!(matches!(
            h.on_message(BackendMessage::ParameterStatus { name: n.as_bytes().to_vec(), value: v.as_bytes().to_vec() }),
            Ok(HandshakeAction::Wait)
        ));
    }
    let mut got = h.session_parameters().clone();
    got.sort();
    assert_eq!(got, vec![("a".to_string(), "3".to_string()), ("b".to_string(), "2".to_string())]);
}
