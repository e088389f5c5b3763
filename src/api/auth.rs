//! Credentials and bearer-token claims of the HTTP interface.
use vstd::prelude::*;

use super::HandleError;
use crate::db::{oid_bytes_of_hex, oid_hex_text};

verus! {

/// How long an issued token stays valid, in seconds: one week.
pub const TOKEN_LIFETIME_SECS: i64 = 7 * 24 * 3600;

/// Whether the outside address parser accepts `s` as an e-mail address.
pub uninterp spec fn email_valid(s: Seq<char>) -> bool;

/// Relies on `email_address::EmailAddress::is_valid`: whether the text
/// parses as an e-mail address.
#[verifier::external_body]
fn is_valid_email(s: &String) -> (r: bool)
    ensures
        r == email_valid(s@),
{
    email_address::EmailAddress::is_valid(s.as_str())
}

/// Relies on `bson::oid::ObjectId::parse_str`: it hex-decodes the text and
/// accepts it exactly when that gives twelve bytes.
#[verifier::external_body]
fn parse_object_id(s: &String) -> (r: Option<[u8; 12]>)
    ensures
        r.is_some() == oid_hex_text(s@),
        r matches Some(b) ==> b@ == oid_bytes_of_hex(s@),
{
    match mongodb::bson::oid::ObjectId::parse_str(s.as_str()) {
        Ok(oid) => Some(oid.bytes()),
        Err(_) => None,
    }
}

/// What a bearer token asserts: the user's name, the user's record id as
/// hex text, and the expiry as a UTC timestamp in seconds.
pub struct Claims {
    pub user: String,
    pub oid: String,
    pub exp: i64,
}

/// The answer to a successful sign-in or registration.
pub struct AuthBody {
    pub success: bool,
    pub message: String,
    pub access_token: String,
    pub token_type: String,
}

/// What a client sends to sign in or register.
pub struct AuthPayload {
    pub username: String,
    pub email: Option<String>,
    pub password: String,
}

impl Claims {
    /// Claims for `user` with record id `oid`, expiring one week after `now`;
    /// `None` where that instant does not fit the timestamp type.
    pub fn issue(user: String, oid: String, now: i64) -> (r: Option<Claims>)
        ensures
            r.is_some() == (now + TOKEN_LIFETIME_SECS <= i64::MAX),
            r matches Some(c) ==> c.user@ == user@ && c.oid@ == oid@ && c.exp == now
                + TOKEN_LIFETIME_SECS,
    {
        if now > i64::MAX - TOKEN_LIFETIME_SECS {
            None
        } else {
            Some(Claims { user, oid, exp: now + TOKEN_LIFETIME_SECS })
        }
    }

    /// The user's name.
    pub fn getuser(&self) -> (r: String)
        ensures
            r@ == self.user@,
    {
        self.user.clone()
    }

    /// The user's record id, where the claim holds well-formed hex text.
    pub fn userid(&self) -> (r: Option<[u8; 12]>)
        ensures
            r.is_some() == oid_hex_text(self.oid@),
            r matches Some(b) ==> b@ == oid_bytes_of_hex(self.oid@),
    {
        parse_object_id(&self.oid)
    }
}

impl AuthBody {
    /// A successful answer carrying `access_token`.
    pub fn new(access_token: String) -> (r: AuthBody)
        ensures
            r.success,
            r.message@ == "Token generated"@,
            r.access_token@ == access_token@,
            r.token_type@ == "Bearer"@,
    {
        AuthBody {
            success: true,
            message: "Token generated".to_string(),
            access_token,
            token_type: "Bearer".to_string(),
        }
    }
}

/// The credentials are all there and the address is well formed.
pub open spec fn registration_ok(p: AuthPayload) -> bool {
    &&& p.username@.len() > 0
    &&& p.password@.len() > 0
    &&& p.email matches Some(m) && email_valid(m@)
}

/// Checks a registration request: it needs a name, a password and a valid
/// e-mail address. Returns the address.
pub fn check_registration(payload: &AuthPayload) -> (r: Result<String, HandleError>)
    ensures
        r.is_ok() == registration_ok(*payload),
        r matches Ok(e) ==> payload.email matches Some(m) && e@ == m@,
        r matches Err(err) ==> err is MissingCredentials,
{
    if payload.username.as_str().is_empty() || payload.password.as_str().is_empty() {
        return Err(HandleError::MissingCredentials);
    }
    match &payload.email {
        Some(m) => {
            if is_valid_email(m) {
                Ok(m.clone())
            } else {
                Err(HandleError::MissingCredentials)
            }
        },
        None => Err(HandleError::MissingCredentials),
    }
}

/// Checks a sign-in request: it needs a name and a password.
pub fn check_login(payload: &AuthPayload) -> (r: Result<(), HandleError>)
    ensures
        r.is_ok() == (payload.username@.len() > 0 && payload.password@.len() > 0),
        r matches Err(err) ==> err is MissingCredentials,
{
    if payload.username.as_str().is_empty() || payload.password.as_str().is_empty() {
        Err(HandleError::MissingCredentials)
    } else {
        Ok(())
    }
}

/// The token secret, or the error that answers its absence.
pub fn require_secret(secret: Option<String>) -> (r: Result<String, HandleError>)
    ensures
        match secret {
            Some(s) => r matches Ok(t) && t@ == s@,
            None => r matches Err(HandleError::ServerError(m)) && m@
                == "Secret not found in config"@,
        },
{
    match secret {
        Some(s) => Ok(s),
        None => Err(HandleError::ServerError("Secret not found in config".to_string())),
    }
}

} // verus!
