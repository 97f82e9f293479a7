use passkey_ceremony::ceremony::Orchestrator;
use passkey_ceremony::error::CeremonyError;
use passkey_ceremony::passkeys::{PasskeyCeremonies, RelyingParty};
use webauthn_rs::prelude::Uuid;

fn relying_party() -> RelyingParty {
    RelyingParty::new("localhost", "http://localhost:3000", "Passkey test").unwrap()
}

#[test]
fn relying_party_refuses_a_foreign_origin() {
    assert!(RelyingParty::new("localhost", "http://example.com", "x").is_none());
    assert!(RelyingParty::new("localhost", "not a url", "x").is_none());
    assert!(RelyingParty::new("example.com", "https://login.example.com", "x").is_some());
}

#[test]
fn start_registration_refuses_an_empty_name() {
    let w = relying_party();
    let mut c: PasskeyCeremonies = Orchestrator::new();
    assert_eq!(c.start_registration(&w, 1, 100, "").err(), Some(CeremonyError::VerificationFailed));
    assert_eq!(c.store.user_id_of(""), None);
    assert!(!c.sessions.is_pending(1, 100));
}

#[test]
fn start_registration_on_a_known_name_succeeds() {
    let w = relying_party();
    let mut c: PasskeyCeremonies = Orchestrator::new();
    c.store.register_user("carol", 5).unwrap();
    let ch = c.start_registration(&w, 2, 100, "carol").unwrap();
    assert_eq!(ch.public_key.user.id.to_vec(), Uuid::from_u128(5).as_bytes().to_vec());
    assert_eq!(c.store.user_id_of("carol"), Some(5));
    assert!(c.sessions.is_pending(2, 459));
    assert!(!c.sessions.is_pending(2, 460));
}

#[test]
fn start_authentication_for_never_registered_user_fails() {
    let w = relying_party();
    let mut c: PasskeyCeremonies = Orchestrator::new();
    assert_eq!(c.start_authentication(&w, 1, 100, "bob").err(), Some(CeremonyError::UnknownUser));
    assert!(!c.sessions.is_pending(1, 100));
}

#[test]
fn start_registration_issues_a_challenge_for_the_user() {
    let w = relying_party();
    let mut c: PasskeyCeremonies = Orchestrator::new();
    let first = c.start_registration(&w, 1, 100, "alice").unwrap();
    assert_eq!(first.public_key.user.name, "alice");
    assert!(c.sessions.is_pending(1, 100));
    let id = c.store.user_id_of("alice").unwrap();
    assert_eq!(first.public_key.user.id.to_vec(), Uuid::from_u128(id).as_bytes().to_vec());
    assert_eq!(c.store.list_credentials(id).len(), 0);

    let second = c.start_registration(&w, 1, 130, "alice").unwrap();
    assert_eq!(c.store.user_id_of("alice"), Some(id));
    assert_eq!(second.public_key.user.id.to_vec(), first.public_key.user.id.to_vec());
    assert_ne!(second.public_key.challenge.to_vec(), first.public_key.challenge.to_vec());
}

#[test]
fn registration_without_credential_does_not_allow_login() {
    let w = relying_party();
    let mut c: PasskeyCeremonies = Orchestrator::new();
    c.start_registration(&w, 1, 100, "alice").unwrap();
    assert_eq!(c.start_authentication(&w, 1, 110, "alice").err(), Some(CeremonyError::UnknownUser));
    assert!(c.sessions.is_pending(1, 110));
    assert!(c.sessions.is_pending(1, 459));
    assert!(!c.sessions.is_pending(1, 460));
}
