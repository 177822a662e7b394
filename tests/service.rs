use roompla::api::{BookingError, LoginData};
use roompla::auth::{bearer_token, directory_bind_dn, directory_identity, login, Identity, LoginDecision};
use roompla::config::{default_service_port, Settings, SettingsLayer};
use roompla::errors::ServiceError;
use roompla::models::User;
use roompla::store::Store;

fn user(id: &str, hash: Option<String>) -> User {
    User {
        id: id.to_string(),
        display_name: format!("{} name", id),
        contact_info: format!("{}@example.org", id),
        password_hash: hash,
    }
}

#[test]
fn local_password_is_checked() {
    let mut s = Store::new();
    let hash = bcrypt::hash("pw", 4).unwrap();
    assert!(s.add_user(user("alice", Some(hash))));
    assert!(s.add_user(user("dir", None)));
    assert!(!s.add_user(user("alice", None)));
    let ok = login(&s, &LoginData { user_id: "alice".to_string(), password: "pw".to_string() });
    assert_eq!(
        ok,
        LoginDecision::Accepted(Identity {
            user_id: "alice".to_string(),
            display_name: "alice name".to_string(),
            contact_info: "alice@example.org".to_string(),
        })
    );
    let bad = login(&s, &LoginData { user_id: "alice".to_string(), password: "nope".to_string() });
    assert_eq!(bad, LoginDecision::Rejected);
    let dir = login(&s, &LoginData { user_id: "dir".to_string(), password: "x".to_string() });
    assert_eq!(dir, LoginDecision::Directory);
    let unknown = login(&s, &LoginData { user_id: "zed".to_string(), password: "x".to_string() });
    assert_eq!(unknown, LoginDecision::Directory);
}

#[test]
fn directory_identity_needs_bind_and_attributes() {
    let names = vec!["Zed Z".to_string()];
    let mails = vec!["zed@example.org".to_string(), "other".to_string()];
    let id = directory_identity(&"zed".to_string(), true, &names, &mails).unwrap();
    assert_eq!((id.display_name.as_str(), id.contact_info.as_str()), ("Zed Z", "zed@example.org"));
    assert_eq!(directory_identity(&"zed".to_string(), false, &names, &mails), None);
    assert_eq!(directory_identity(&"zed".to_string(), true, &vec![], &mails), None);
    assert_eq!(directory_bind_dn(&"zed".to_string(), &"ou=users,o=Org".to_string()), "uid=zed,ou=users,o=Org");
}

#[test]
fn bearer_prefix_is_accepted_in_both_cases() {
    assert_eq!(bearer_token("Bearer abc.def.ghi "), Some("abc.def.ghi".to_string()));
    assert_eq!(bearer_token("bearer  xyz"), Some("xyz".to_string()));
    assert_eq!(bearer_token("Basic abc"), None);
    assert_eq!(bearer_token("Bear"), None);
}

#[test]
fn settings_defaults_and_layer() {
    let d = Settings::new();
    assert_eq!(d.service.port, 5050);
    assert_eq!(default_service_port(), 5050);
    assert_eq!(d.database.url, "roompla.sqlite");
    assert_eq!(d.ldap.filter, "(uid=*)");
    assert_eq!(d.jwt.secret, None);
    let layer = SettingsLayer {
        service_port: Some(8080),
        database_url: Some("other.sqlite".to_string()),
        jwt_expiration: Some(60),
        ..SettingsLayer::default()
    };
    let mut s = Settings::with_file(&layer);
    assert_eq!(s.service.port, 8080);
    assert_eq!(s.database.url, "other.sqlite");
    assert_eq!(s.ldap.url, "ldaps://ldapmaster.cms.hu-berlin.de");
    assert_eq!(s.jwt.expiration, Some(60));
    s.ensure_secret("generated".to_string());
    assert_eq!(s.jwt.secret.as_deref(), Some("generated"));
    s.ensure_secret("again".to_string());
    assert_eq!(s.jwt.secret.as_deref(), Some("generated"));
}

#[test]
fn errors_report_status_and_body() {
    let e = ServiceError::BadRequest("bad".to_string());
    assert_eq!((e.status_code(), e.message(), e.public_body()), (400, "Bad Request: bad".to_string(), Some("bad".to_string())));
    let e = ServiceError::DatabaseError("disk".to_string());
    assert_eq!((e.status_code(), e.public_body()), (502, Some("Error accessing database".to_string())));
    let e = ServiceError::InternalServerError("x".to_string());
    assert_eq!((e.status_code(), e.public_body()), (500, None));
    assert_eq!(BookingError::RoomFull.status_code(), 409);
    assert_eq!(BookingError::RoomNotFound.status_code(), 404);
    assert_eq!(BookingError::InvalidRange.status_code(), 403);
}
