//! The service's error taxonomy and how each error is reported to a client.
use crate::api::BookingError;
use crate::token::TokenError;
use vstd::prelude::*;
use vstd::string::*;

verus! {

#[derive(Debug, Clone, PartialEq, Eq)]
pub enum ServiceError {
    BadRequest(String),
    InvalidJWTToken(String),
    DatabaseError(String),
    InternalServerError(String),
}

fn prefixed(prefix: &str, msg: &String) -> (r: String)
    ensures
        r@ == prefix@ + msg@,
{
    let mut r = prefix.to_owned();
    r.append(msg.as_str());
    r
}

impl ServiceError {
    /// The full description of the error, for the server's log.
    pub fn message(&self) -> (r: String)
        ensures
            r@ == (match self {
                ServiceError::BadRequest(m) => "Bad Request: "@ + m@,
                ServiceError::InvalidJWTToken(m) => "Invalid JWT Token: "@ + m@,
                ServiceError::DatabaseError(m) => "Error accessing database: "@ + m@,
                ServiceError::InternalServerError(m) => "Internal Server Error: "@ + m@,
            }),
    {
        match self {
            ServiceError::BadRequest(m) => prefixed("Bad Request: ", m),
            ServiceError::InvalidJWTToken(m) => prefixed("Invalid JWT Token: ", m),
            ServiceError::DatabaseError(m) => prefixed("Error accessing database: ", m),
            ServiceError::InternalServerError(m) => prefixed("Internal Server Error: ", m),
        }
    }

    /// The HTTP status that reports the error.
    pub fn status_code(&self) -> (r: u16)
        ensures
            r == (match self {
                ServiceError::BadRequest(_) => 400u16,
                ServiceError::InvalidJWTToken(_) => 401u16,
                ServiceError::DatabaseError(_) => 502u16,
                ServiceError::InternalServerError(_) => 500u16,
            }),
    {
        match self {
            ServiceError::BadRequest(_) => 400,
            ServiceError::InvalidJWTToken(_) => 401,
            ServiceError::DatabaseError(_) => 502,
            ServiceError::InternalServerError(_) => 500,
        }
    }

    /// What the client is told: the message of a client error, a fixed text
    /// for a storage error, nothing for an internal one.
    pub fn public_body(&self) -> (r: Option<String>)
        ensures
            match self {
                ServiceError::BadRequest(m) => r matches Some(b) && b@ == m@,
                ServiceError::InvalidJWTToken(m) => r matches Some(b) && b@ == m@,
                ServiceError::DatabaseError(_) => r matches Some(b) && b@ == "Error accessing database"@,
                ServiceError::InternalServerError(_) => r is None,
            },
    {
        match self {
            ServiceError::BadRequest(m) => Some(m.clone()),
            ServiceError::InvalidJWTToken(m) => Some(m.clone()),
            ServiceError::DatabaseError(_) => Some("Error accessing database".to_owned()),
            ServiceError::InternalServerError(_) => None,
        }
    }

    /// The service error for a token that could not be issued or accepted:
    /// an expired token is told apart from every other refusal.
    pub fn from_token_error(e: TokenError) -> (r: ServiceError)
        ensures
            match e {
                TokenError::Expired => r matches ServiceError::InvalidJWTToken(m) && m@ == "Token is expired"@,
                TokenError::Malformed => r matches ServiceError::InvalidJWTToken(m) && m@ == "Malformed token"@,
                TokenError::BadSignature => r matches ServiceError::InvalidJWTToken(m) && m@ == "Invalid signature"@,
                TokenError::ExpiryOutOfRange => r matches ServiceError::InternalServerError(m)
                    && m@ == "Could not add expiration time to current time"@,
            },
    {
        match e {
            TokenError::Expired => ServiceError::InvalidJWTToken("Token is expired".to_owned()),
            TokenError::Malformed => ServiceError::InvalidJWTToken("Malformed token".to_owned()),
            TokenError::BadSignature => ServiceError::InvalidJWTToken("Invalid signature".to_owned()),
            TokenError::ExpiryOutOfRange => ServiceError::InternalServerError(
                "Could not add expiration time to current time".to_owned(),
            ),
        }
    }
}

impl BookingError {
    /// The HTTP status that reports the refusal: a malformed time is a bad
    /// request, a reversed range is forbidden, an unknown room is not found, a
    /// full room is a conflict, and running out of identifiers is a server fault.
    pub fn status_code(&self) -> (r: u16)
        ensures
            r == (match self {
                BookingError::MalformedTime => 400u16,
                BookingError::InvalidRange => 403u16,
                BookingError::RoomNotFound => 404u16,
                BookingError::RoomFull => 409u16,
                BookingError::IdsExhausted => 500u16,
            }),
    {
        match self {
            BookingError::MalformedTime => 400,
            BookingError::InvalidRange => 403,
            BookingError::RoomNotFound => 404,
            BookingError::RoomFull => 409,
            BookingError::IdsExhausted => 500,
        }
    }
}

} // verus!
