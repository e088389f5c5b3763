//! Name-only bearer-token claims and the errors of that interface.
use vstd::prelude::*;

use crate::api::auth::TOKEN_LIFETIME_SECS;
use crate::api::{STATUS_BAD_REQUEST, STATUS_SERVER_ERROR, STATUS_UNAUTHORIZED};

verus! {

/// What a bearer token asserts: the user's name and the expiry instant.
pub struct Claims {
    pub user: String,
    pub exp: i64,
}

/// The answer to a successful sign-in.
pub struct AuthBody {
    pub access_token: String,
    pub token_type: String,
}

/// What a client sends to sign in.
pub struct AuthPayload {
    pub username: String,
    pub password: String,
}

/// Why a request of this interface was refused.
pub enum AuthError {
    WrongCredentials,
    MissingCredentials,
    TokenCreation,
    InvalidToken,
    SecretNotFound,
    DatabaseConnection,
}

impl Claims {
    /// Claims for `user` expiring one week after `now`; `None` where that
    /// instant does not fit the timestamp type.
    pub fn issue(user: String, now: i64) -> (r: Option<Claims>)
        ensures
            r.is_some() == (now + TOKEN_LIFETIME_SECS <= i64::MAX),
            r matches Some(c) ==> c.user@ == user@ && c.exp == now + TOKEN_LIFETIME_SECS,
    {
        if now > i64::MAX - TOKEN_LIFETIME_SECS {
            None
        } else {
            Some(Claims { user, exp: now + TOKEN_LIFETIME_SECS })
        }
    }

    /// The user's name.
    pub fn getuser(&self) -> (r: String)
        ensures
            r@ == self.user@,
    {
        self.user.clone()
    }
}

impl AuthBody {
    /// An answer carrying `access_token` as a bearer token.
    pub fn new(access_token: String) -> (r: AuthBody)
        ensures
            r.access_token@ == access_token@,
            r.token_type@ == "Bearer"@,
    {
        AuthBody { access_token, token_type: "Bearer".to_string() }
    }
}

/// Checks a sign-in request: it needs a name and a password.
pub fn check_credentials(payload: &AuthPayload) -> (r: Result<(), AuthError>)
    ensures
        r.is_ok() == (payload.username@.len() > 0 && payload.password@.len() > 0),
        r matches Err(e) ==> e is MissingCredentials,
{
    if payload.username.as_str().is_empty() || payload.password.as_str().is_empty() {
        Err(AuthError::MissingCredentials)
    } else {
        Ok(())
    }
}

impl AuthError {
    /// The status code of the answer.
    pub open spec fn status_spec(&self) -> u16 {
        match self {
            AuthError::WrongCredentials => STATUS_UNAUTHORIZED,
            AuthError::MissingCredentials => STATUS_BAD_REQUEST,
            AuthError::TokenCreation => STATUS_SERVER_ERROR,
            AuthError::InvalidToken => STATUS_BAD_REQUEST,
            AuthError::SecretNotFound => STATUS_SERVER_ERROR,
            AuthError::DatabaseConnection => STATUS_SERVER_ERROR,
        }
    }

    /// The text of the answer's `error` field.
    pub open spec fn message_spec(&self) -> Seq<char> {
        match self {
            AuthError::WrongCredentials => "Wrong credentials"@,
            AuthError::MissingCredentials => "Missing credentials"@,
            AuthError::TokenCreation => "Token creation error"@,
            AuthError::InvalidToken => "Invalid token"@,
            AuthError::SecretNotFound => "Secret not found"@,
            AuthError::DatabaseConnection => "Database error"@,
        }
    }

    /// The status code and error text that answer this error.
    pub fn status_message(&self) -> (r: (u16, String))
        ensures
            r.0 == self.status_spec(),
            r.1@ == self.message_spec(),
    {
        match self {
            AuthError::WrongCredentials => (STATUS_UNAUTHORIZED, "Wrong credentials".to_string()),
            AuthError::MissingCredentials => (
                STATUS_BAD_REQUEST,
                "Missing credentials".to_string(),
            ),
            AuthError::TokenCreation => (STATUS_SERVER_ERROR, "Token creation error".to_string()),
            AuthError::InvalidToken => (STATUS_BAD_REQUEST, "Invalid token".to_string()),
            AuthError::SecretNotFound => (STATUS_SERVER_ERROR, "Secret not found".to_string()),
            AuthError::DatabaseConnection => (STATUS_SERVER_ERROR, "Database error".to_string()),
        }
    }
}

} // verus!
