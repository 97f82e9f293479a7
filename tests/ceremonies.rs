use passkey_ceremony::ceremony::{Orchestrator, Rejection, CEREMONY_WINDOW_SECS};
use passkey_ceremony::error::{CeremonyError, StoreError};
use passkey_ceremony::session::SessionHolder;
use passkey_ceremony::store::{bytes_equal, bytes_to_vec, CredentialStore};

type Plain = Orchestrator<u8, u8, u8>;

#[test]
fn take_without_put_is_missing() {
    let mut h: SessionHolder<u8> = SessionHolder::new(60);
    assert_eq!(h.take(5, 0), Err(CeremonyError::CeremonyExpiredOrMissing));
}

#[test]
fn take_after_expiry_is_missing() {
    let mut h: SessionHolder<u8> = SessionHolder::new(60);
    h.put(5, 1, 100);
    assert!(h.is_pending(5, 159));
    assert!(!h.is_pending(5, 160));
    assert_eq!(h.take(5, 160), Err(CeremonyError::CeremonyExpiredOrMissing));
    assert_eq!(h.take(5, 100), Err(CeremonyError::CeremonyExpiredOrMissing));
}

#[test]
fn take_is_destructive() {
    let mut h: SessionHolder<u8> = SessionHolder::new(60);
    h.put(5, 1, 100);
    assert_eq!(h.take(5, 120), Ok(1));
    assert_eq!(h.take(5, 121), Err(CeremonyError::CeremonyExpiredOrMissing));
}

#[test]
fn put_overwrites_and_keys_are_separate() {
    let mut h: SessionHolder<u8> = SessionHolder::new(60);
    h.put(5, 1, 100);
    h.put(6, 3, 100);
    h.put(5, 2, 130);
    assert_eq!(h.take(5, 185), Ok(2));
    assert_eq!(h.take(6, 159), Ok(3));
}

#[test]
fn expiry_saturates_at_the_largest_instant() {
    let mut h: SessionHolder<u8> = SessionHolder::new(60);
    h.put(1, 9, u64::MAX - 10);
    assert_eq!(h.take(1, u64::MAX), Ok(9));
    h.put(2, 8, u64::MAX);
    assert_eq!(h.take(2, u64::MAX), Ok(8));
    let mut none: SessionHolder<u8> = SessionHolder::new(0);
    none.put(3, 7, u64::MAX);
    assert_eq!(none.take(3, u64::MAX), Err(CeremonyError::CeremonyExpiredOrMissing));
}

#[test]
fn register_user_refuses_taken_name_and_id() {
    let mut s: CredentialStore<u8> = CredentialStore::new();
    assert_eq!(s.register_user("alice", 1), Ok(1));
    assert_eq!(s.register_user("alice", 2), Err(StoreError::AlreadyExists));
    assert_eq!(s.register_user("bob", 1), Err(StoreError::AlreadyExists));
    assert_eq!(s.register_user("bob", 2), Ok(2));
    assert_eq!(s.user_id_of("bob"), Some(2));
    assert_eq!(s.user_id_of("carol"), None);
}

#[test]
fn add_credential_appends_and_needs_a_user() {
    let mut s: CredentialStore<u8> = CredentialStore::new();
    assert_eq!(s.add_credential(1, vec![1], 0, 7), Err(StoreError::NotFound));
    s.register_user("alice", 1).unwrap();
    assert_eq!(s.add_credential(1, vec![1], 0, 7), Ok(()));
    assert_eq!(s.add_credential(1, vec![2], 4, 8), Ok(()));
    let creds = s.list_credentials(1);
    assert_eq!(creds.len(), 2);
    assert_eq!(creds[0].cred_id, vec![1]);
    assert_eq!(creds[1].counter, 4);
    assert_eq!(s.materials(1), &[7, 8]);
    assert_eq!(s.list_credentials(9).len(), 0);
    assert_eq!(s.materials(9).len(), 0);
}

#[test]
fn update_counter_reports_missing_user_or_credential() {
    let mut s: CredentialStore<u8> = CredentialStore::new();
    assert_eq!(s.update_counter(1, &[1], 3), Err(StoreError::NotFound));
    s.register_user("alice", 1).unwrap();
    s.add_credential(1, vec![1], 0, 7).unwrap();
    assert_eq!(s.update_counter(1, &[2], 3), Err(StoreError::NotFound));
    assert_eq!(s.update_counter(1, &[1], 3), Ok(()));
    assert_eq!(s.list_credentials(1)[0].counter, 3);
}

#[test]
fn byte_helpers() {
    assert!(bytes_equal(&[1, 2], &[1, 2]));
    assert!(!bytes_equal(&[1, 2], &[1, 3]));
    assert!(!bytes_equal(&[1], &[1, 2]));
    assert_eq!(bytes_to_vec(&[4, 5, 6]), vec![4, 5, 6]);
}

#[test]
fn new_orchestrator_uses_the_ceremony_window() {
    let mut o: Plain = Orchestrator::new();
    o.begin_registration(1, 0, 1, 5);
    assert_eq!(o.claim_registration(1, CEREMONY_WINDOW_SECS), Err(CeremonyError::CeremonyExpiredOrMissing));
    o.begin_registration(1, 0, 1, 5);
    assert_eq!(o.claim_registration(1, CEREMONY_WINDOW_SECS - 1), Ok((1, 5)));
}

#[test]
fn registration_user_reuses_existing_name() {
    let mut o: Plain = Orchestrator::new();
    assert_eq!(o.registration_user("alice", 10), Ok(10));
    assert_eq!(o.registration_user("alice", 11), Ok(10));
    assert_eq!(o.registration_user("bob", 10), Err(CeremonyError::UserConflict));
}

#[test]
fn second_start_supersedes_the_first() {
    let mut o: Plain = Orchestrator::new();
    let uid = o.registration_user("alice", 1).unwrap();
    o.begin_registration(77, 0, uid, 1);
    o.begin_registration(77, 5, uid, 2);
    let (user, state) = o.claim_registration(77, 10).unwrap();
    assert_eq!((user, state), (1, 2));
    // the response to the first challenge is refused as stale by the verifier
    assert_eq!(
        o.commit_registration(user, Err(Rejection::StaleChallenge)),
        Err(CeremonyError::CeremonyExpiredOrMissing)
    );
    assert_eq!(o.store.list_credentials(uid).len(), 0);
}

#[test]
fn finishing_twice_succeeds_once() {
    let mut o: Plain = Orchestrator::new();
    let uid = o.registration_user("alice", 1).unwrap();
    o.begin_registration(3, 0, uid, 1);
    let (user, _) = o.claim_registration(3, 1).unwrap();
    assert_eq!(o.commit_registration(user, Ok((vec![9], 4))), Ok(()));
    assert_eq!(o.claim_registration(3, 2), Err(CeremonyError::CeremonyExpiredOrMissing));
    assert_eq!(o.store.list_credentials(uid).len(), 1);
}

#[test]
fn finish_of_the_other_kind_is_missing() {
    let mut o: Plain = Orchestrator::new();
    o.begin_authentication(3, 0, 1, 1);
    assert_eq!(o.claim_registration(3, 1), Err(CeremonyError::CeremonyExpiredOrMissing));
    o.begin_registration(3, 0, 1, 1);
    assert_eq!(o.claim_authentication(3, 1), Err(CeremonyError::CeremonyExpiredOrMissing));
}

#[test]
fn registration_adds_exactly_one_credential() {
    let mut o: Plain = Orchestrator::new();
    let a = o.registration_user("alice", 1).unwrap();
    let b = o.registration_user("bob", 2).unwrap();
    o.commit_registration(b, Ok((vec![5], 1))).unwrap();
    assert_eq!(o.commit_registration(a, Ok((vec![1], 1))), Ok(()));
    assert_eq!(o.commit_registration(a, Ok((vec![2], 2))), Ok(()));
    assert_eq!(o.store.list_credentials(a).len(), 2);
    assert_eq!(o.store.list_credentials(a)[1].counter, 0);
    assert_eq!(o.store.list_credentials(b).len(), 1);
    assert_eq!(o.commit_registration(99, Ok((vec![2], 2))), Err(CeremonyError::UnknownUser));
    assert_eq!(o.commit_registration(a, Err(Rejection::Invalid)), Err(CeremonyError::VerificationFailed));
    assert_eq!(o.store.list_credentials(a).len(), 2);
}

#[test]
fn counter_that_does_not_advance_is_refused() {
    let mut o: Plain = Orchestrator::new();
    let a = o.registration_user("alice", 1).unwrap();
    o.commit_registration(a, Ok((vec![1], 1))).unwrap();
    assert_eq!(o.commit_authentication(a, Ok((vec![1], 0))), Err(CeremonyError::VerificationFailed));
    assert_eq!(o.commit_authentication(a, Ok((vec![1], 6))), Ok(()));
    assert_eq!(o.commit_authentication(a, Ok((vec![1], 6))), Err(CeremonyError::VerificationFailed));
    assert_eq!(o.commit_authentication(a, Ok((vec![1], 5))), Err(CeremonyError::VerificationFailed));
    assert_eq!(o.store.list_credentials(a)[0].counter, 6);
    assert_eq!(o.commit_authentication(a, Ok((vec![2], 9))), Err(CeremonyError::VerificationFailed));
    assert_eq!(
        o.commit_authentication(a, Err(Rejection::StaleChallenge)),
        Err(CeremonyError::CeremonyExpiredOrMissing)
    );
}

#[test]
fn alice_registers_then_logs_in() {
    let mut o: Plain = Orchestrator::new();
    let a = o.registration_user("alice", 42).unwrap();
    o.begin_registration(1, 100, a, 11);
    let (user, _state) = o.claim_registration(1, 110).unwrap();
    assert_eq!(o.commit_registration(user, Ok((vec![1, 2, 3], 200))), Ok(()));
    assert_eq!(o.store.list_credentials(a).len(), 1);

    let login_user = o.authentication_user("alice").unwrap();
    assert_eq!(login_user, a);
    assert_eq!(o.store.materials(login_user), &[200]);
    o.begin_authentication(1, 120, login_user, 12);
    let (user, state) = o.claim_authentication(1, 130).unwrap();
    assert_eq!((user, state), (a, 12));
    assert_eq!(o.commit_authentication(user, Ok((vec![1, 2, 3], 1))), Ok(()));
    assert_eq!(o.store.list_credentials(a)[0].counter, 1);
}

#[test]
fn unregistered_bob_cannot_log_in() {
    let mut o: Plain = Orchestrator::new();
    assert_eq!(o.authentication_user("bob"), Err(CeremonyError::UnknownUser));
    o.registration_user("bob", 7).unwrap();
    assert_eq!(o.authentication_user("bob"), Err(CeremonyError::UnknownUser));
}
