use vstd::prelude::*;
use vstd::string::StringSliceAdditionalSpecFns;
use webauthn_rs::prelude::{
    CreationChallengeResponse, Passkey, PasskeyAuthentication, PasskeyRegistration,
    PublicKeyCredential, RegisterPublicKeyCredential, RequestChallengeResponse, Uuid,
    WebauthnError,
};
use webauthn_rs::prelude::Url;
use webauthn_rs::{Webauthn, WebauthnBuilder};

use crate::ceremony::{
    authentication_claim, registration_claim, rejection_error, Orchestrator, Pending, Rejection,
};
use crate::error::CeremonyError;
use crate::session::{expiry_after, live_state};
use crate::store::{
    first_key_index, id_taken, index_of_id, index_of_name, keys_of, name_taken, with_counter,
    with_credential, UserModel,
};

verus! {

#[verifier::external_type_specification]
#[verifier::external_body]
pub struct ExWebauthn(Webauthn);

#[verifier::external_type_specification]
#[verifier::external_body]
pub struct ExPasskey(Passkey);

#[verifier::external_type_specification]
#[verifier::external_body]
pub struct ExPasskeyRegistration(PasskeyRegistration);

#[verifier::external_type_specification]
#[verifier::external_body]
pub struct ExPasskeyAuthentication(PasskeyAuthentication);

#[verifier::external_type_specification]
#[verifier::external_body]
pub struct ExCreationChallengeResponse(CreationChallengeResponse);

#[verifier::external_type_specification]
#[verifier::external_body]
pub struct ExRequestChallengeResponse(RequestChallengeResponse);

#[verifier::external_type_specification]
#[verifier::external_body]
pub struct ExRegisterPublicKeyCredential(RegisterPublicKeyCredential);

#[verifier::external_type_specification]
#[verifier::external_body]
pub struct ExPublicKeyCredential(PublicKeyCredential);

/// The orchestrator instantiated with webauthn-rs passkeys.
pub type PasskeyCeremonies = Orchestrator<Passkey, PasskeyRegistration, PasskeyAuthentication>;

/// Relies on uuid::Uuid::new_v4: a random identifier, of which nothing is promised.
#[verifier::external_body]
fn random_user_id() -> (r: u128) {
    Uuid::new_v4().as_u128()
}

/// The relying party's verifier. It is only ever built by `RelyingParty::new`,
/// so it always has webauthn-rs's default authenticator timeout (300 s).
pub struct RelyingParty {
    webauthn: Webauthn,
}

/// Whether `rp_origin` parses as a URL whose domain is `rp_id` or one of its
/// subdomains, as webauthn-rs requires of a relying party.
pub uninterp spec fn origin_accepted(rp_id: Seq<char>, rp_origin: Seq<char>) -> bool;

/// Relies on url::Url::parse, WebauthnBuilder::new, WebauthnBuilder::rp_name
/// and WebauthnBuilder::build: a verifier with the default timeout, or
/// `None` when the origin does not parse or its domain does not match `rp_id`.
#[verifier::external_body]
fn build_webauthn(rp_id: &str, rp_origin: &str, rp_name: &str) -> (r: Option<Webauthn>)
    ensures
        r is Some == origin_accepted(rp_id@, rp_origin@),
{
    let origin = Url::parse(rp_origin).ok()?;
    WebauthnBuilder::new(rp_id, &origin).ok()?.rp_name(rp_name).build().ok()
}

impl RelyingParty {
    /// The verifier for relying party `rp_id` at origin `rp_origin`, shown to
    /// users as `rp_name`; `None` when the origin is not valid for `rp_id`.
    pub fn new(rp_id: &str, rp_origin: &str, rp_name: &str) -> (r: Option<RelyingParty>)
        ensures
            r is Some == origin_accepted(rp_id@, rp_origin@),
    {
        match build_webauthn(rp_id, rp_origin, rp_name) {
            Some(webauthn) => Some(RelyingParty { webauthn }),
            None => None,
        }
    }
}

/// Relies on Webauthn::start_passkey_registration: a fresh random challenge
/// for the user, excluding the identifiers of `existing`. With the default
/// timeout it is refused only for an empty name.
#[verifier::external_body]
fn registration_challenge(rp: &RelyingParty, user_id: u128, username: &str, existing: &[Passkey]) -> (r:
    Option<(CreationChallengeResponse, PasskeyRegistration)>)
    ensures
        username@.len() > 0 ==> r is Some,
{
    let exclude = existing.iter().map(|pk| pk.cred_id().clone()).collect();
    rp.webauthn.start_passkey_registration(Uuid::from_u128(user_id), username, username, Some(exclude)).ok()
}

/// Why webauthn-rs refuses `response` to the registration `state` under
/// `rp`, or `None` when it accepts it. The check uses no clock and no
/// randomness: the verdict depends on these three values alone.
pub uninterp spec fn registration_refusal(
    rp: RelyingParty,
    response: RegisterPublicKeyCredential,
    state: PasskeyRegistration,
) -> Option<Rejection>;

/// What webauthn-rs makes of `response` to the login `state` under `rp`:
/// the identifier and signature counter of the credential that signed, or
/// why it was refused. It depends on these three values alone.
pub uninterp spec fn authentication_outcome(
    rp: RelyingParty,
    response: PublicKeyCredential,
    state: PasskeyAuthentication,
) -> Result<(Seq<u8>, u32), Rejection>;

/// Relies on Webauthn::finish_passkey_registration: the verified passkey, or
/// the reason it was refused (a mismatched challenge is told apart).
#[verifier::external_body]
fn check_registration(rp: &RelyingParty, response: &RegisterPublicKeyCredential, state: &PasskeyRegistration) -> (r:
    Result<Passkey, Rejection>)
    ensures
        match registration_refusal(*rp, *response, *state) {
            Some(why) => r == Err::<Passkey, Rejection>(why),
            None => r is Ok,
        },
{
    rp.webauthn.finish_passkey_registration(response, state).map_err(|e| match e {
        WebauthnError::MismatchedChallenge => Rejection::StaleChallenge,
        _ => Rejection::Invalid,
    })
}

/// Relies on Passkey::cred_id: the credential identifier's bytes.
#[verifier::external_body]
fn passkey_id(pk: &Passkey) -> (r: Vec<u8>) {
    pk.cred_id().to_vec()
}

/// Relies on Webauthn::start_passkey_authentication: a fresh random
/// challenge naming `creds`. With the required-verification policy it
/// passes and the default timeout, it is never refused.
#[verifier::external_body]
fn authentication_challenge(rp: &RelyingParty, creds: &[Passkey]) -> (r: Option<
    (RequestChallengeResponse, PasskeyAuthentication),
>)
    ensures
        r is Some,
{
    rp.webauthn.start_passkey_authentication(creds).ok()
}

/// Relies on Webauthn::finish_passkey_authentication: the identifier and
/// signature counter of the credential that signed, or the reason the
/// response was refused (a mismatched challenge is told apart).
#[verifier::external_body]
fn check_authentication(rp: &RelyingParty, response: &PublicKeyCredential, state: &PasskeyAuthentication) -> (r:
    Result<(Vec<u8>, u32), Rejection>)
    ensures
        match authentication_outcome(*rp, *response, *state) {
            Ok((cred_id, counter)) => r is Ok && r->Ok_0.0@ == cred_id && r->Ok_0.1 == counter,
            Err(why) => r == Err::<(Vec<u8>, u32), Rejection>(why),
        },
{
    rp.webauthn.finish_passkey_authentication(response, state).map(|a| (a.cred_id().to_vec(), a.counter())).map_err(
        |e| match e {
            WebauthnError::MismatchedChallenge => Rejection::StaleChallenge,
            _ => Rejection::Invalid,
        },
    )
}


/// The user that a pending state belongs to.
pub open spec fn pending_user<R, A>(p: Pending<R, A>) -> u128 {
    match p {
        Pending::Registration { user_id, .. } => user_id,
        Pending::Authentication { user_id, .. } => user_id,
    }
}

impl PasskeyCeremonies {
    /// Starts a registration for `username` in session `key` at `now`. A
    /// known name keeps its user, and its passkeys are excluded from the
    /// challenge, so a further device can be added; an unknown name gets a
    /// new user under a random identifier once the challenge is issued. An
    /// empty name is refused. Any ceremony the session had in flight is
    /// replaced; on failure nothing changes.
    pub fn start_registration(&mut self, rp: &RelyingParty, key: u128, now: u64, username: &str) -> (r:
        Result<CreationChallengeResponse, CeremonyError>)
        requires
            old(self).wf(),
        ensures
            final(self).wf(),
            final(self).sessions.window() == old(self).sessions.window(),
            r is Err ==> final(self).store@ == old(self).store@ && final(self).sessions@ == old(
                self).sessions@,
            username@.len() == 0 ==> r == Err::<CreationChallengeResponse, CeremonyError>(
                CeremonyError::VerificationFailed,
            ),
            username@.len() > 0 && name_taken(old(self).store@, username.spec_bytes()) ==> r is Ok,
            name_taken(old(self).store@, username.spec_bytes()) ==> final(self).store@ == old(self).store@,
            username@.len() > 0 && !name_taken(old(self).store@, username.spec_bytes()) && r is Err
                ==> r == Err::<CreationChallengeResponse, CeremonyError>(CeremonyError::UserConflict),
            r is Ok && !name_taken(old(self).store@, username.spec_bytes()) ==> exists|id: u128|
                !id_taken(old(self).store@, id) && final(self).store@ == old(self).store@.push(
                    UserModel {
                        username: username.spec_bytes(),
                        user_id: id,
                        keys: Seq::empty(),
                        materials: Seq::empty(),
                    },
                ),
            r is Ok ==> {
                &&& name_taken(final(self).store@, username.spec_bytes())
                &&& final(self).sessions@.contains_key(key)
                &&& final(self).sessions@[key].expires_at == expiry_after(now, old(self).sessions.window())
                &&& final(self).sessions@[key].state is Registration
                &&& pending_user(final(self).sessions@[key].state) == final(self).store@[index_of_name(
                    final(self).store@,
                    username.spec_bytes(),
                )].user_id
                &&& final(self).sessions@ == old(self).sessions@.insert(key, final(self).sessions@[key])
            },
    {
        if username.is_empty() {
            return Err(CeremonyError::VerificationFailed);
        }
        let fresh = random_user_id();
        let user_id = match self.store.user_id_of(username) {
            Some(id) => id,
            None => {
                if self.store.find_by_id(fresh).is_some() {
                    return Err(CeremonyError::UserConflict);
                }
                fresh
            },
        };
        let (challenge, state) = match registration_challenge(
            rp,
            user_id,
            username,
            self.store.materials(user_id),
        ) {
            Some(pair) => pair,
            None => {
                return Err(CeremonyError::VerificationFailed);
            },
        };
        match self.registration_user(username, user_id) {
            Ok(_) => {},
            Err(e) => {
                return Err(e);
            },
        }
        proof {
            if !name_taken(old(self).store@, username.spec_bytes()) {
                let users = self.store@;
                let last = users.len() - 1;
                assert(users[last].username == username.spec_bytes());
                crate::store::lemma_index_of_name(users, username.spec_bytes(), last);
            }
        }
        self.begin_registration(key, now, user_id, state);
        Ok(challenge)
    }

    /// Finishes the registration pending in session `key` at `now` with the
    /// client's response. The pending state is consumed whatever happens; on
    /// success the user gains exactly one passkey, with a counter of zero.
    pub fn finish_registration(&mut self, rp: &RelyingParty, key: u128, now: u64, response: &RegisterPublicKeyCredential) -> (r:
        Result<(), CeremonyError>)
        requires
            old(self).wf(),
        ensures
            final(self).wf(),
            final(self).sessions@ == old(self).sessions@.remove(key),
            final(self).sessions.window() == old(self).sessions.window(),
            registration_claim(live_state(old(self).sessions@, key, now)) is Err ==> r == Err::<
                (),
                CeremonyError,
            >(CeremonyError::CeremonyExpiredOrMissing),
            r is Err ==> final(self).store@ == old(self).store@,
            registration_claim(live_state(old(self).sessions@, key, now)) is Ok ==> {
                let (user_id, state) = registration_claim(live_state(old(self).sessions@, key, now))->Ok_0;
                match registration_refusal(*rp, *response, state) {
                    Some(why) => r == Err::<(), CeremonyError>(rejection_error(why)),
                    None => if id_taken(old(self).store@, user_id) {
                        r is Ok
                    } else {
                        r == Err::<(), CeremonyError>(CeremonyError::UnknownUser)
                    },
                }
            },
            r is Ok ==> {
                let user_id = registration_claim(live_state(old(self).sessions@, key, now))->Ok_0.0;
                let i = index_of_id(old(self).store@, user_id);
                &&& registration_claim(live_state(old(self).sessions@, key, now)) is Ok
                &&& id_taken(old(self).store@, user_id)
                &&& exists|cred_id: Seq<u8>, material: Passkey|
                    final(self).store@ == old(self).store@.update(
                        i,
                        with_credential(old(self).store@[i], (cred_id, 0u32), material),
                    )
                &&& keys_of(final(self).store@, user_id).len() == keys_of(old(self).store@, user_id).len()
                    + 1
                &&& forall|other: u128|
                    other != user_id ==> #[trigger] keys_of(final(self).store@, other) == keys_of(
                        old(self).store@,
                        other,
                    )
            },
    {
        let (user_id, state) = match self.claim_registration(key, now) {
            Ok(claimed) => claimed,
            Err(e) => {
                return Err(e);
            },
        };
        let outcome = match check_registration(rp, response, &state) {
            Ok(pk) => Ok((passkey_id(&pk), pk)),
            Err(why) => Err(why),
        };
        let ghost o = outcome;
        let r = self.commit_registration(user_id, outcome);
        proof {
            if r is Ok {
                let (cid, m) = o->Ok_0;
                assert(final(self).store@ == old(self).store@.update(
                    index_of_id(old(self).store@, user_id),
                    with_credential(old(self).store@[index_of_id(old(self).store@, user_id)], (cid@, 0u32), m),
                ));
                crate::laws::lemma_registration_adds_one(old(self).store@, user_id, (cid@, 0u32), m, user_id);
                assert forall|other: u128| other != user_id implies #[trigger] keys_of(
                    final(self).store@,
                    other,
                ) == keys_of(old(self).store@, other) by {
                    crate::laws::lemma_registration_adds_one(old(self).store@, user_id, (cid@, 0u32), m, other);
                }
            }
        }
        r
    }
}


/// Whether a login may start for `name`: the user exists and owns a credential.
pub open spec fn may_log_in<M>(users: Seq<UserModel<M>>, name: Seq<u8>) -> bool {
    name_taken(users, name) && keys_of(users, users[index_of_name(users, name)].user_id).len() > 0
}

impl PasskeyCeremonies {
    /// Starts a login for `username` in session `key` at `now`, naming all of
    /// the user's passkeys. Fails with `UnknownUser` when no user of that
    /// name owns a passkey. Any ceremony the session had in flight is replaced.
    pub fn start_authentication(&mut self, rp: &RelyingParty, key: u128, now: u64, username: &str) -> (r:
        Result<RequestChallengeResponse, CeremonyError>)
        requires
            old(self).wf(),
        ensures
            final(self).wf(),
            final(self).store == old(self).store,
            final(self).sessions.window() == old(self).sessions.window(),
            may_log_in(old(self).store@, username.spec_bytes()) ==> r is Ok,
            !may_log_in(old(self).store@, username.spec_bytes()) ==> r == Err::<
                RequestChallengeResponse,
                CeremonyError,
            >(CeremonyError::UnknownUser),
            r is Err ==> final(self).sessions@ == old(self).sessions@,
            r is Ok ==> {
                &&& may_log_in(old(self).store@, username.spec_bytes())
                &&& final(self).sessions@.contains_key(key)
                &&& final(self).sessions@[key].expires_at == expiry_after(now, old(self).sessions.window())
                &&& final(self).sessions@[key].state is Authentication
                &&& pending_user(final(self).sessions@[key].state) == old(self).store@[index_of_name(
                    old(self).store@,
                    username.spec_bytes(),
                )].user_id
                &&& final(self).sessions@ == old(self).sessions@.insert(key, final(self).sessions@[key])
            },
    {
        let user_id = match self.authentication_user(username) {
            Ok(id) => id,
            Err(e) => {
                return Err(e);
            },
        };
        let (challenge, state) = match authentication_challenge(rp, self.store.materials(user_id)) {
            Some(pair) => pair,
            None => {
                return Err(CeremonyError::VerificationFailed);
            },
        };
        self.begin_authentication(key, now, user_id, state);
        Ok(challenge)
    }

    /// Finishes the login pending in session `key` at `now` with the
    /// client's response. The pending state is consumed whatever happens. It
    /// succeeds only if the verifier accepts the response and the presented
    /// counter exceeds the one stored for that passkey, which is then stored.
    pub fn finish_authentication(&mut self, rp: &RelyingParty, key: u128, now: u64, response: &PublicKeyCredential) -> (r:
        Result<(), CeremonyError>)
        requires
            old(self).wf(),
        ensures
            final(self).wf(),
            final(self).sessions@ == old(self).sessions@.remove(key),
            final(self).sessions.window() == old(self).sessions.window(),
            authentication_claim(live_state(old(self).sessions@, key, now)) is Err ==> r == Err::<
                (),
                CeremonyError,
            >(CeremonyError::CeremonyExpiredOrMissing),
            r is Err ==> final(self).store@ == old(self).store@,
            authentication_claim(live_state(old(self).sessions@, key, now)) is Ok ==> {
                let (user_id, state) = authentication_claim(live_state(old(self).sessions@, key, now))->Ok_0;
                let keys = keys_of(old(self).store@, user_id);
                let i = index_of_id(old(self).store@, user_id);
                match authentication_outcome(*rp, *response, state) {
                    Err(why) => r == Err::<(), CeremonyError>(rejection_error(why)),
                    Ok((cred_id, presented)) => match first_key_index(keys, cred_id) {
                        None => r == Err::<(), CeremonyError>(CeremonyError::VerificationFailed),
                        Some(j) => if presented <= keys[j].1 {
                            r == Err::<(), CeremonyError>(CeremonyError::VerificationFailed)
                        } else {
                            r == Ok::<(), CeremonyError>(()) && final(self).store@ == old(self).store@.update(
                                i,
                                with_counter(old(self).store@[i], j, presented),
                            )
                        },
                    },
                }
            },
            r is Ok ==> {
                let user_id = authentication_claim(live_state(old(self).sessions@, key, now))->Ok_0.0;
                let keys = keys_of(old(self).store@, user_id);
                let i = index_of_id(old(self).store@, user_id);
                &&& authentication_claim(live_state(old(self).sessions@, key, now)) is Ok
                &&& exists|cred_id: Seq<u8>, j: int, presented: u32|
                    first_key_index(keys, cred_id) == Some(j) && keys[j].1 < presented && final(self).store@ == old(self).store@.update(
                        i,
                        with_counter(old(self).store@[i], j, presented),
                    )
            },
    {
        let (user_id, state) = match self.claim_authentication(key, now) {
            Ok(claimed) => claimed,
            Err(e) => {
                return Err(e);
            },
        };
        let outcome = check_authentication(rp, response, &state);
        let ghost o = outcome;
        let r = self.commit_authentication(user_id, outcome);
        proof {
            if r is Ok {
                let (cid, c) = o->Ok_0;
                let j = first_key_index(keys_of(old(self).store@, user_id), cid@)->Some_0;
                assert(final(self).store@ == old(self).store@.update(
                    index_of_id(old(self).store@, user_id),
                    with_counter(old(self).store@[index_of_id(old(self).store@, user_id)], j, c),
                ));
            }
        }
        r
    }
}

} // verus!
