use monoio_pg::auth::{md5_encrypt, parse_u32, verify_server_final, ScramClient};
use monoio_pg::Error;

const SERVER_FIRST: &str = "r=rOprNGfwEbeRWgbNEkqO%hvYDpWUa2RaTCAfuxFIlj)hNlF$k0,s=W22ZaJ0SNY7soEsUEjb6gQ==,i=4096";
const CLIENT_FINAL: &str =
    "c=biws,r=rOprNGfwEbeRWgbNEkqO%hvYDpWUa2RaTCAfuxFIlj)hNlF$k0,p=dHzbZapWIk4jUhN+Ute9ytag9zjfMHgsqmmiz7AndVQ=";
const SERVER_FINAL: &[u8] = b"v=6rriTRBi23WpRR/wtup+mMhUZUn/dB5nLTJRsjl95G4=";

#[test]
fn md5_encrypt_matches_formula() {
    assert_eq!(md5_encrypt("user", "pass", &[1, 2, 3, 4]), "md56cf524962d8413e6b0cdf79fddff891c");
    assert_eq!(md5_encrypt("postgres", "secret", &[0xde, 0xad, 0xbe, 0xef]), "md5c546d0bbed2af888b328536b45c76348");
}

#[test]
fn md5_encrypt_is_deterministic() {
    let a = md5_encrypt("user", "pass", &[9, 8, 7, 6]);
    let b = md5_encrypt("user", "pass", &[9, 8, 7, 6]);
    assert_eq!(a, b);
    assert_eq!(a.len(), 35);
    assert!(a.starts_with("md5"));
    assert_ne!(a, md5_encrypt("user", "pass", &[9, 8, 7, 5]));
}

#[test]
fn scram_reference_exchange() {
    let client = ScramClient::with_nonce("user", "pencil", "rOprNGfwEbeRWgbNEkqO");
    assert_eq!(client.client_first_message(), "n,,n=user,r=rOprNGfwEbeRWgbNEkqO");
    let (reply, signature) = client.handle_server_first_message(SERVER_FIRST).unwrap();
    assert_eq!(reply, CLIENT_FINAL);
    assert!(verify_server_final(SERVER_FINAL, &signature).is_ok());
}

#[test]
fn scram_mutated_server_signature_is_rejected() {
    let client = ScramClient::with_nonce("user", "pencil", "rOprNGfwEbeRWgbNEkqO");
    let (_, signature) = client.handle_server_first_message(SERVER_FIRST).unwrap();
    for i in 0..32 {
        let mut wrong = signature;
        wrong[i] ^= 0x01;
        assert!(matches!(verify_server_final(SERVER_FINAL, &wrong), Err(Error::Authentication(_))));
    }
}

#[test]
fn scram_server_final_must_start_with_v() {
    let signature = [0u8; 32];
    assert!(matches!(verify_server_final(b"x=AAAA", &signature), Err(Error::Authentication(_))));
    assert!(matches!(verify_server_final(b"v=***", &signature), Err(Error::Authentication(_))));
}

#[test]
fn scram_user_name_is_escaped() {
    let client = ScramClient::with_nonce("a=b,c", "pw", "xyz");
    assert_eq!(client.client_first_message(), "n,,n=a=3Db=2Cc,r=xyz");
}

#[test]
fn scram_fresh_nonce_is_32_hex_digits() {
    let client = ScramClient::new("user", "pw");
    let first = client.client_first_message();
    let nonce = first.strip_prefix("n,,n=user,r=").unwrap();
    assert_eq!(nonce.len(), 32);
    assert!(nonce.chars().all(|c| c.is_ascii_hexdigit() && !c.is_ascii_uppercase()));
}

#[test]
fn scram_missing_attributes_are_errors() {
    let client = ScramClient::with_nonce("user", "pencil", "abc");
    assert!(matches!(client.handle_server_first_message("s=QUJD,i=1"), Err(Error::Authentication(_))));
    assert!(matches!(client.handle_server_first_message("r=abc,i=1"), Err(Error::Authentication(_))));
    assert!(matches!(client.handle_server_first_message("r=abc,s=QUJD"), Err(Error::Authentication(_))));
    assert!(matches!(client.handle_server_first_message("r=abc,s=QUJD,i=x"), Err(Error::Authentication(_))));
    assert!(matches!(client.handle_server_first_message("r=abc,s=!!,i=1"), Err(Error::Authentication(_))));
}

#[test]
fn parse_u32_reads_decimal_text() {
    assert_eq!(parse_u32("4096"), Some(4096));
    assert_eq!(parse_u32("+12"), Some(12));
    assert_eq!(parse_u32("007"), Some(7));
    assert_eq!(parse_u32("4294967295"), Some(u32::MAX));
    assert_eq!(parse_u32("4294967296"), None);
    assert_eq!(parse_u32(""), None);
    assert_eq!(parse_u32("+"), None);
    assert_eq!(parse_u32("-1"), None);
    assert_eq!(parse_u32("1a"), None);
}
