use vstd::prelude::*;
use vstd::string::StringSliceAdditionalSpecFns;

use crate::error::CeremonyError;
use crate::session::{live_state, SessionHolder};
use crate::store::{
    first_key_index, id_taken, index_of_id, index_of_name, keys_of, name_taken, with_counter,
    with_credential, CredentialStore,
};

verus! {

/// Seconds after a "start" during which its "finish" is accepted.
pub const CEREMONY_WINDOW_SECS: u64 = 360;

/// The in-flight state of one session: which ceremony, for which user, and
/// what the verifier needs to check the client's answer.
pub enum Pending<R, A> {
    Registration { user_id: u128, reg: R },
    Authentication { user_id: u128, auth: A },
}

/// Why the verifier turned a client response down.
#[derive(Debug, Clone, Copy, PartialEq, Eq, Structural)]
pub enum Rejection {
    /// The response answers a challenge other than the pending one.
    StaleChallenge,
    /// Any other cryptographic or protocol mismatch.
    Invalid,
}

/// The error reported for a verifier rejection.
pub open spec fn rejection_error(r: Rejection) -> CeremonyError {
    match r {
        Rejection::StaleChallenge => CeremonyError::CeremonyExpiredOrMissing,
        Rejection::Invalid => CeremonyError::VerificationFailed,
    }
}

/// What claiming a registration hands out, given the live state of the session.
pub open spec fn registration_claim<R, A>(live: Option<Pending<R, A>>) -> Result<(u128, R), CeremonyError> {
    match live {
        Some(Pending::Registration { user_id, reg: state }) => Ok((user_id, state)),
        _ => Err(CeremonyError::CeremonyExpiredOrMissing),
    }
}

/// What claiming an authentication hands out, given the live state of the session.
pub open spec fn authentication_claim<R, A>(live: Option<Pending<R, A>>) -> Result<(u128, A), CeremonyError> {
    match live {
        Some(Pending::Authentication { user_id, auth: state }) => Ok((user_id, state)),
        _ => Err(CeremonyError::CeremonyExpiredOrMissing),
    }
}

/// The credential store and the per-session ceremony states.
pub struct Orchestrator<M, R, A> {
    pub store: CredentialStore<M>,
    pub sessions: SessionHolder<Pending<R, A>>,
}

impl<M, R, A> Orchestrator<M, R, A> {
    pub open spec fn wf(&self) -> bool {
        self.store.wf()
    }

    /// An orchestrator with no users and no ceremony in flight.
    pub fn new() -> (r: Self)
        ensures
            r.wf(),
            r.store@ == Seq::<crate::store::UserModel<M>>::empty(),
            r.sessions@ == Map::<u128, crate::session::PendingSlot<Pending<R, A>>>::empty(),
            r.sessions.window() == CEREMONY_WINDOW_SECS,
    {
        Orchestrator { store: CredentialStore::new(), sessions: SessionHolder::new(CEREMONY_WINDOW_SECS) }
    }

    /// The user a registration is for: the existing user of that name, so
    /// that a further device can be added, or a new one under `fresh_id`.
    pub fn registration_user(&mut self, username: &str, fresh_id: u128) -> (r: Result<u128, CeremonyError>)
        requires
            old(self).wf(),
        ensures
            final(self).wf(),
            final(self).sessions == old(self).sessions,
            name_taken(old(self).store@, username.spec_bytes()) ==> r == Ok::<u128, CeremonyError>(
                old(self).store@[index_of_name(old(self).store@, username.spec_bytes())].user_id,
            ) && final(self).store@ == old(self).store@,
            !name_taken(old(self).store@, username.spec_bytes()) && id_taken(old(self).store@, fresh_id)
                ==> r == Err::<u128, CeremonyError>(CeremonyError::UserConflict) && final(self).store@
                == old(self).store@,
            !name_taken(old(self).store@, username.spec_bytes()) && !id_taken(old(self).store@, fresh_id)
                ==> r == Ok::<u128, CeremonyError>(fresh_id) && final(self).store@ == old(self).store@.push(
                crate::store::UserModel {
                    username: username.spec_bytes(),
                    user_id: fresh_id,
                    keys: Seq::empty(),
                    materials: Seq::empty(),
                },
            ),
    {
        match self.store.user_id_of(username) {
            Some(id) => Ok(id),
            None => match self.store.register_user(username, fresh_id) {
                Ok(id) => Ok(id),
                Err(_) => Err(CeremonyError::UserConflict),
            },
        }
    }

    /// The user a login is for: fails with `UnknownUser` unless a user of
    /// that name owns at least one credential.
    pub fn authentication_user(&self, username: &str) -> (r: Result<u128, CeremonyError>)
        requires
            self.wf(),
        ensures
            name_taken(self.store@, username.spec_bytes()) && keys_of(
                self.store@,
                self.store@[index_of_name(self.store@, username.spec_bytes())].user_id,
            ).len() > 0 ==> r == Ok::<u128, CeremonyError>(
                self.store@[index_of_name(self.store@, username.spec_bytes())].user_id,
            ),
            !(name_taken(self.store@, username.spec_bytes()) && keys_of(
                self.store@,
                self.store@[index_of_name(self.store@, username.spec_bytes())].user_id,
            ).len() > 0) ==> r == Err::<u128, CeremonyError>(CeremonyError::UnknownUser),
    {
        match self.store.user_id_of(username) {
            None => Err(CeremonyError::UnknownUser),
            Some(id) => {
                let creds = self.store.list_credentials(id);
                if creds.len() == 0 {
                    Err(CeremonyError::UnknownUser)
                } else {
                    Ok(id)
                }
            },
        }
    }

    /// Records a started registration for session `key`, replacing any
    /// ceremony that session had in flight.
    pub fn begin_registration(&mut self, key: u128, now: u64, user_id: u128, state: R)
        ensures
            final(self).store == old(self).store,
            final(self).sessions@ == old(self).sessions@.insert(
                key,
                crate::session::PendingSlot {
                    state: Pending::Registration { user_id, reg: state },
                    expires_at: crate::session::expiry_after(now, old(self).sessions.window()),
                },
            ),
            final(self).sessions.window() == old(self).sessions.window(),
    {
        self.sessions.put(key, Pending::Registration { user_id, reg: state }, now);
    }

    /// Records a started login for session `key`, replacing any ceremony
    /// that session had in flight.
    pub fn begin_authentication(&mut self, key: u128, now: u64, user_id: u128, state: A)
        ensures
            final(self).store == old(self).store,
            final(self).sessions@ == old(self).sessions@.insert(
                key,
                crate::session::PendingSlot {
                    state: Pending::Authentication { user_id, auth: state },
                    expires_at: crate::session::expiry_after(now, old(self).sessions.window()),
                },
            ),
            final(self).sessions.window() == old(self).sessions.window(),
    {
        self.sessions.put(key, Pending::Authentication { user_id, auth: state }, now);
    }

    /// Takes the registration pending for session `key`; the session's slot
    /// is emptied whatever it held.
    pub fn claim_registration(&mut self, key: u128, now: u64) -> (r: Result<(u128, R), CeremonyError>)
        ensures
            final(self).store == old(self).store,
            final(self).sessions@ == old(self).sessions@.remove(key),
            final(self).sessions.window() == old(self).sessions.window(),
            r == registration_claim(live_state(old(self).sessions@, key, now)),
    {
        match self.sessions.take(key, now) {
            Ok(Pending::Registration { user_id, reg: state }) => Ok((user_id, state)),
            _ => Err(CeremonyError::CeremonyExpiredOrMissing),
        }
    }

    /// Takes the login pending for session `key`; the session's slot is
    /// emptied whatever it held.
    pub fn claim_authentication(&mut self, key: u128, now: u64) -> (r: Result<(u128, A), CeremonyError>)
        ensures
            final(self).store == old(self).store,
            final(self).sessions@ == old(self).sessions@.remove(key),
            final(self).sessions.window() == old(self).sessions.window(),
            r == authentication_claim(live_state(old(self).sessions@, key, now)),
    {
        match self.sessions.take(key, now) {
            Ok(Pending::Authentication { user_id, auth: state }) => Ok((user_id, state)),
            _ => Err(CeremonyError::CeremonyExpiredOrMissing),
        }
    }

    /// Stores the credential that the verifier accepted for user `user_id`,
    /// with a counter of zero; a rejection leaves the store as it was.
    pub fn commit_registration(&mut self, user_id: u128, outcome: Result<(Vec<u8>, M), Rejection>) -> (r:
        Result<(), CeremonyError>)
        requires
            old(self).wf(),
        ensures
            final(self).wf(),
            final(self).sessions == old(self).sessions,
            match outcome {
                Err(why) => r == Err::<(), CeremonyError>(rejection_error(why)) && final(self).store@
                    == old(self).store@,
                Ok((cred_id, material)) => if id_taken(old(self).store@, user_id) {
                    r == Ok::<(), CeremonyError>(()) && final(self).store@ == old(self).store@.update(
                        index_of_id(old(self).store@, user_id),
                        with_credential(
                            old(self).store@[index_of_id(old(self).store@, user_id)],
                            (cred_id@, 0u32),
                            material,
                        ),
                    )
                } else {
                    r == Err::<(), CeremonyError>(CeremonyError::UnknownUser) && final(self).store@
                        == old(self).store@
                },
            },
    {
        match outcome {
            Err(Rejection::StaleChallenge) => Err(CeremonyError::CeremonyExpiredOrMissing),
            Err(Rejection::Invalid) => Err(CeremonyError::VerificationFailed),
            Ok((cred_id, material)) => match self.store.add_credential(user_id, cred_id, 0, material) {
                Ok(()) => Ok(()),
                Err(_) => Err(CeremonyError::UnknownUser),
            },
        }
    }

    /// Accepts a verified login for user `user_id` only if its counter
    /// exceeds the one stored for that credential, and stores the new counter.
    pub fn commit_authentication(&mut self, user_id: u128, outcome: Result<(Vec<u8>, u32), Rejection>) -> (r:
        Result<(), CeremonyError>)
        requires
            old(self).wf(),
        ensures
            final(self).wf(),
            final(self).sessions == old(self).sessions,
            match outcome {
                Err(why) => r == Err::<(), CeremonyError>(rejection_error(why)) && final(self).store@
                    == old(self).store@,
                Ok((cred_id, presented)) => match first_key_index(
                    keys_of(old(self).store@, user_id),
                    cred_id@,
                ) {
                    None => r == Err::<(), CeremonyError>(CeremonyError::VerificationFailed) && final(self).store@ == old(self).store@,
                    Some(j) => if presented <= keys_of(old(self).store@, user_id)[j].1 {
                        r == Err::<(), CeremonyError>(CeremonyError::VerificationFailed) && final(self).store@ == old(self).store@
                    } else {
                        r == Ok::<(), CeremonyError>(()) && final(self).store@ == old(self).store@.update(
                            index_of_id(old(self).store@, user_id),
                            with_counter(
                                old(self).store@[index_of_id(old(self).store@, user_id)],
                                j,
                                presented,
                            ),
                        )
                    },
                },
            },
    {
        match outcome {
            Err(Rejection::StaleChallenge) => Err(CeremonyError::CeremonyExpiredOrMissing),
            Err(Rejection::Invalid) => Err(CeremonyError::VerificationFailed),
            Ok((cred_id, presented)) => {
                let ui = match self.store.find_by_id(user_id) {
                    Some(ui) => ui,
                    None => {
                        return Err(CeremonyError::VerificationFailed);
                    },
                };
                let j = match self.store.find_credential(ui, cred_id.as_slice()) {
                    Some(j) => j,
                    None => {
                        return Err(CeremonyError::VerificationFailed);
                    },
                };
                let stored = self.store.counter_at(ui, j);
                if presented <= stored {
                    return Err(CeremonyError::VerificationFailed);
                }
                match self.store.update_counter(user_id, cred_id.as_slice(), presented) {
                    Ok(()) => Ok(()),
                    Err(_) => Err(CeremonyError::VerificationFailed),
                }
            },
        }
    }
}

} // verus!
