use roompla::api::Claims;
use roompla::errors::ServiceError;
use roompla::token::{
    check_expiry, check_expiry_now, create_signed_token, issue_claims, issue_claims_now, split_token, verify_token, TokenError,
};

const HEADER: &str = "eyJhbGciOiJIUzI1NiIsInR5cCI6IkpXVCJ9";
const CLAIMS: &str = "eyJzdWIiOiIxMjM0NTY3ODkwIiwibmFtZSI6IkpvaG4gRG9lIiwiYWRtaW4iOnRydWV9";

fn claims(exp: Option<i64>) -> Claims {
    Claims { sub: "alice".to_string(), name: "Alice".to_string(), contact_info: "a@example.org".to_string(), exp }
}

#[test]
fn signed_token_has_known_signature() {
    let t = create_signed_token(HEADER, CLAIMS, "secret");
    assert_eq!(t, format!("{}.{}.TJVA95OrM7E2cBab30RMHrHDcEfxjoYZgeFONFh7HgQ", HEADER, CLAIMS));
}

#[test]
fn token_round_trip_and_wrong_secret() {
    let t = create_signed_token(HEADER, CLAIMS, "s3cr3t");
    assert_eq!(verify_token(&t, "s3cr3t"), Ok((HEADER.to_string(), CLAIMS.to_string())));
    assert_eq!(verify_token(&t, "other"), Err(TokenError::BadSignature));
    assert_eq!(verify_token("a.b", "s3cr3t"), Err(TokenError::Malformed));
    assert_eq!(verify_token(&format!("{}.x", t), "s3cr3t"), Err(TokenError::Malformed));
}

#[test]
fn split_needs_exactly_two_dots() {
    assert_eq!(split_token("a.bc.d"), Some(("a".to_string(), "bc".to_string(), "d".to_string())));
    assert_eq!(split_token("..."), None);
    assert_eq!(split_token(".."), Some((String::new(), String::new(), String::new())));
    assert_eq!(split_token("abc"), None);
}

#[test]
fn expiry_is_checked_and_distinguished() {
    assert_eq!(check_expiry(claims(Some(100)), 99), Ok(claims(Some(100))));
    assert_eq!(check_expiry(claims(Some(100)), 100), Err(TokenError::Expired));
    assert_eq!(check_expiry(claims(None), i64::MAX), Ok(claims(None)));
    assert_eq!(check_expiry_now(claims(Some(0))), Err(TokenError::Expired));
    assert_eq!(check_expiry_now(claims(None)), Ok(claims(None)));
    let expired = ServiceError::from_token_error(TokenError::Expired);
    let forged = ServiceError::from_token_error(TokenError::BadSignature);
    assert_eq!(expired, ServiceError::InvalidJWTToken("Token is expired".to_string()));
    assert_ne!(expired, forged);
}

#[test]
fn issued_claims_carry_expiry() {
    let c = issue_claims(&"alice".to_string(), &"Alice".to_string(), &"a@example.org".to_string(), 1000, Some(30)).unwrap();
    assert_eq!(c, claims(Some(2800)));
    let c = issue_claims(&"alice".to_string(), &"Alice".to_string(), &"a@example.org".to_string(), 1000, None).unwrap();
    assert_eq!(c, claims(None));
    let r = issue_claims(&"a".to_string(), &"A".to_string(), &"c".to_string(), i64::MAX - 10, Some(1));
    assert_eq!(r, Err(TokenError::ExpiryOutOfRange));
    let c = issue_claims_now(&"alice".to_string(), &"Alice".to_string(), &"a@example.org".to_string(), Some(60)).unwrap();
    assert!(c.exp.unwrap() > 1_600_000_000);
    assert_eq!(check_expiry_now(c.clone()), Ok(c));
}
