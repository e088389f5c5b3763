use tjsignal::api::auth::{check_login, check_registration, require_secret, AuthBody, AuthPayload, Claims, TOKEN_LIFETIME_SECS};
use tjsignal::api::discussion::{Channel, TopicPayload};
use tjsignal::api::HandleError;
use tjsignal::config::{Auth, Config, Mongo};
use tjsignal::db::{decode_oid, encode_oid};
use tjsignal::restful::auth as restful;

fn s(x: &str) -> String {
    x.to_string()
}

#[test]
fn config_getters() {
    let c = Config {
        auth: Some(Auth { secret: Some(s("k")) }),
        mongodb: Some(Mongo { uri: Some(s("mongodb://h")), db: None }),
    };
    assert_eq!(c.get_secret(), Some(s("k")));
    assert_eq!(c.mongo_uri(), Some(s("mongodb://h")));
    assert_eq!(c.mongo_db(), None);
    let empty = Config { auth: None, mongodb: None };
    assert_eq!(empty.get_secret(), None);
    assert_eq!(empty.mongo_uri(), None);
}

#[test]
fn handle_error_answers() {
    assert_eq!(HandleError::WrongCredentials.status_message(), (401, s("Wrong credentials")));
    assert_eq!(HandleError::MissingCredentials.status_message(), (400, s("Missing credentials")));
    assert_eq!(HandleError::BadRequest(s("Invalid token")).status_message(), (400, s("Invalid token")));
    assert_eq!(HandleError::ServerError(s("boom")).status_message(), (500, s("boom")));
    assert_eq!(HandleError::NotFound(s("Invalid path")).status_message(), (404, s("Invalid path")));
}

#[test]
fn restful_error_answers() {
    assert_eq!(restful::AuthError::TokenCreation.status_message(), (500, s("Token creation error")));
    assert_eq!(restful::AuthError::InvalidToken.status_message(), (400, s("Invalid token")));
    assert_eq!(restful::AuthError::DatabaseConnection.status_message(), (500, s("Database error")));
    assert_eq!(restful::AuthError::WrongCredentials.status_message(), (401, s("Wrong credentials")));
    assert_eq!(restful::AuthError::MissingCredentials.status_message(), (400, s("Missing credentials")));
    assert_eq!(restful::AuthError::SecretNotFound.status_message(), (500, s("Secret not found")));
}

#[test]
fn auth_body_and_claims() {
    let b = AuthBody::new(s("tok"));
    assert!(b.success);
    assert_eq!(b.message, "Token generated");
    assert_eq!(b.access_token, "tok");
    assert_eq!(b.token_type, "Bearer");
    let c = Claims::issue(s("alice"), s("0123456789abcdef01234567"), 1_000).unwrap();
    assert_eq!(c.exp, 1_000 + 7 * 24 * 3600);
    assert_eq!(TOKEN_LIFETIME_SECS, 604_800);
    assert_eq!(c.getuser(), "alice");
    assert!(Claims::issue(s("a"), s("b"), i64::MAX).is_none());
    let r = restful::Claims::issue(s("bob"), 0).unwrap();
    assert_eq!((r.getuser(), r.exp), (s("bob"), 604_800));
    assert_eq!(restful::AuthBody::new(s("t")).token_type, "Bearer");
}

#[test]
fn claims_userid_parses_hex() {
    let c = Claims { user: s("a"), oid: s("0123456789abcdefABCDEF00"), exp: 0 };
    assert_eq!(
        c.userid(),
        Some([0x01, 0x23, 0x45, 0x67, 0x89, 0xab, 0xcd, 0xef, 0xab, 0xcd, 0xef, 0x00])
    );
    let bad = Claims { user: s("a"), oid: s("xyz"), exp: 0 };
    assert_eq!(bad.userid(), None);
}

#[test]
fn registration_checks() {
    let p = AuthPayload { username: s("alice"), email: Some(s("alice@example.com")), password: s("pw") };
    assert_eq!(check_registration(&p).ok(), Some(s("alice@example.com")));
    let p = AuthPayload { username: s("alice"), email: Some(s("not an address")), password: s("pw") };
    assert!(matches!(check_registration(&p), Err(HandleError::MissingCredentials)));
    let p = AuthPayload { username: s("alice"), email: None, password: s("pw") };
    assert!(matches!(check_registration(&p), Err(HandleError::MissingCredentials)));
    let p = AuthPayload { username: s(""), email: Some(s("a@b.com")), password: s("pw") };
    assert!(matches!(check_registration(&p), Err(HandleError::MissingCredentials)));
    assert!(check_login(&AuthPayload { username: s("a"), email: None, password: s("p") }).is_ok());
    assert!(check_login(&AuthPayload { username: s("a"), email: None, password: s("") }).is_err());
    let q = restful::AuthPayload { username: s(""), password: s("p") };
    assert!(matches!(restful::check_credentials(&q), Err(restful::AuthError::MissingCredentials)));
}

#[test]
fn missing_secret_is_a_server_error() {
    assert_eq!(require_secret(Some(s("k"))).ok(), Some(s("k")));
    match require_secret(None) {
        Err(HandleError::ServerError(m)) => assert_eq!(m, "Secret not found in config"),
        _ => panic!("expected a server error"),
    }
}

#[test]
fn oid_path_form_round_trips() {
    let id = [0u8; 12];
    assert_eq!(encode_oid(id), "AAAAAAAAAAAAAAAA");
    let id = [0xfb, 0xff, 0xfe, 1, 2, 3, 4, 5, 6, 7, 8, 9];
    let enc = encode_oid(id);
    assert_eq!(&enc[..4], "-__-");
    assert_eq!(decode_oid(&enc), Some(id));
    assert_eq!(decode_oid(&s("AAAA")), None);
    assert_eq!(decode_oid(&s("not base64!")), None);
}

#[test]
fn topic_payload_fields() {
    let c = Channel::new([0u8; 12]);
    assert_eq!(c.cid, "AAAAAAAAAAAAAAAA");
    assert_eq!(c.title, "unset");
    assert!(c.tags.is_empty());
    let t = TopicPayload::new([0u8; 12], s("ann"), s("a@x.org"), [0u8; 12], s("T"), s("C"), 42);
    assert!(t.success);
    assert_eq!(t.message, "Topic queried");
    assert_eq!(t.author.uid, "AAAAAAAAAAAAAAAA");
    assert_eq!((t.title, t.content, t.created_at), (s("T"), s("C"), 42));
}
