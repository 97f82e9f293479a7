use vstd::prelude::*;

use crate::ceremony::{authentication_claim, registration_claim, rejection_error, Pending, Rejection};
use crate::error::CeremonyError;
use crate::session::{live_state, PendingSlot};
use crate::store::{id_taken, index_of_id, keys_of, lemma_index_of_id, users_wf, with_credential, UserModel};

verus! {

/// A session key that was never filled, or whose state has lapsed, yields
/// no state: `take` then fails with `CeremonyExpiredOrMissing`.
pub proof fn lemma_absent_or_lapsed_is_missing<P>(slots: Map<u128, PendingSlot<P>>, key: u128, now: u64)
    requires
        !slots.contains_key(key) || now as int >= slots[key].expires_at as int,
    ensures
        live_state(slots, key, now) is None,
{
}

/// A second start on the same session replaces the first: whatever is
/// claimed afterwards is the second registration, never the first. A client
/// response to the first challenge is then refused by the verifier as
/// stale, which is reported as `CeremonyExpiredOrMissing`.
pub proof fn lemma_restart_supersedes<R, A>(
    slots: Map<u128, PendingSlot<Pending<R, A>>>,
    key: u128,
    first_user: u128,
    first: R,
    first_expiry: u128,
    second_user: u128,
    second: R,
    second_expiry: u128,
    now: u64,
)
    ensures
        registration_claim(
            live_state(
                slots.insert(
                    key,
                    PendingSlot {
                        state: Pending::Registration { user_id: first_user, reg: first },
                        expires_at: first_expiry,
                    },
                ).insert(
                    key,
                    PendingSlot {
                        state: Pending::Registration { user_id: second_user, reg: second },
                        expires_at: second_expiry,
                    },
                ),
                key,
                now,
            ),
        ) == if (now as int) < (second_expiry as int) {
            Ok::<(u128, R), CeremonyError>((second_user, second))
        } else {
            Err(CeremonyError::CeremonyExpiredOrMissing)
        },
        rejection_error(Rejection::StaleChallenge) == CeremonyError::CeremonyExpiredOrMissing,
{
}

/// Claiming consumes the session's state: a second "finish" on the same
/// session, at any time, fails with `CeremonyExpiredOrMissing`, so a
/// replayed client response succeeds at most once.
pub proof fn lemma_claim_consumes<R, A>(
    slots: Map<u128, PendingSlot<Pending<R, A>>>,
    key: u128,
    later: u64,
)
    ensures
        registration_claim::<R, A>(live_state(slots.remove(key), key, later)) == Err::<
            (u128, R),
            CeremonyError,
        >(CeremonyError::CeremonyExpiredOrMissing),
        authentication_claim::<R, A>(live_state(slots.remove(key), key, later)) == Err::<
            (u128, A),
            CeremonyError,
        >(CeremonyError::CeremonyExpiredOrMissing),
{
}

/// A committed registration adds exactly one credential to its user, and
/// leaves every other user's credentials as they were.
pub proof fn lemma_registration_adds_one<M>(
    users: Seq<UserModel<M>>,
    user_id: u128,
    key: (Seq<u8>, u32),
    material: M,
    other: u128,
)
    requires
        users_wf(users),
        id_taken(users, user_id),
    ensures
        ({
            let after = users.update(
                index_of_id(users, user_id),
                with_credential(users[index_of_id(users, user_id)], key, material),
            );
            &&& keys_of(after, user_id) == keys_of(users, user_id).push(key)
            &&& keys_of(after, user_id).len() == keys_of(users, user_id).len() + 1
            &&& other != user_id ==> keys_of(after, other) == keys_of(users, other)
        }),
{
    let i = index_of_id(users, user_id);
    let after = users.update(i, with_credential(users[i], key, material));
    assert(users_wf(after)) by {
        assert forall|a: int, b: int|
            0 <= a < after.len() && 0 <= b < after.len() && a != b implies (
            #[trigger] after[a]).username != (#[trigger] after[b]).username && after[a].user_id
            != after[b].user_id by {
            assert(users[a].username != users[b].username);
        }
        assert forall|a: int| 0 <= a < after.len() implies (#[trigger] after[a]).keys.len()
            == after[a].materials.len() by {
            assert(users[a].keys.len() == users[a].materials.len());
        }
    }
    lemma_index_of_id(after, user_id, i);
    if other != user_id && id_taken(users, other) {
        let o = index_of_id(users, other);
        lemma_index_of_id(users, other, o);
        lemma_index_of_id(after, other, o);
    }
    if other != user_id && id_taken(after, other) {
        let o = index_of_id(after, other);
        assert(after[o].user_id == other);
        assert(users[o].user_id == other);
    }
}

} // verus!
