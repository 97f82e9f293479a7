use std::collections::HashMap;
use vstd::prelude::*;
use vstd::std_specs::hash::group_hash_axioms;

use crate::error::CeremonyError;

verus! {

broadcast use group_hash_axioms;

/// A ceremony state awaiting its "finish" call, and the instant (in
/// seconds) from which it no longer counts. The instant is held in a wider
/// type so that it never saturates.
pub struct PendingSlot<P> {
    pub state: P,
    pub expires_at: u128,
}

/// The instant from which a state stored at `now` has lapsed.
pub open spec fn expiry_after(now: u64, window: u64) -> u128 {
    (now as int + window as int) as u128
}

/// The state that `take` hands out for `key` at `now`, if any.
pub open spec fn live_state<P>(slots: Map<u128, PendingSlot<P>>, key: u128, now: u64) -> Option<P> {
    if slots.contains_key(key) && (now as int) < (slots[key].expires_at as int) {
        Some(slots[key].state)
    } else {
        None
    }
}

/// At most one in-flight ceremony state per session key, each lapsing a
/// fixed window after it was stored.
pub struct SessionHolder<P> {
    slots: HashMap<u128, PendingSlot<P>>,
    window: u64,
}

impl<P> View for SessionHolder<P> {
    type V = Map<u128, PendingSlot<P>>;

    closed spec fn view(&self) -> Map<u128, PendingSlot<P>> {
        self.slots@
    }
}

impl<P> SessionHolder<P> {
    /// The inactivity window, in seconds.
    pub closed spec fn window(&self) -> u64 {
        self.window
    }

    /// An empty holder whose states lapse `window` seconds after being stored.
    pub fn new(window: u64) -> (r: Self)
        ensures
            r@ == Map::<u128, PendingSlot<P>>::empty(),
            r.window() == window,
    {
        SessionHolder { slots: HashMap::new(), window }
    }

    /// Stores `state` for `key` at `now`, replacing whatever was there.
    pub fn put(&mut self, key: u128, state: P, now: u64)
        ensures
            final(self)@ == old(self)@.insert(
                key,
                PendingSlot { state, expires_at: expiry_after(now, old(self).window()) },
            ),
            final(self).window() == old(self).window(),
    {
        let expires_at: u128 = now as u128 + self.window as u128;
        self.slots.insert(key, PendingSlot { state, expires_at });
    }

    /// Removes the state stored for `key` and hands it out if it is still
    /// live at `now`, that is, if less than the window has passed since it
    /// was stored; the slot is emptied either way.
    pub fn take(&mut self, key: u128, now: u64) -> (r: Result<P, CeremonyError>)
        ensures
            final(self)@ == old(self)@.remove(key),
            final(self).window() == old(self).window(),
            r == match live_state(old(self)@, key, now) {
                Some(s) => Ok::<P, CeremonyError>(s),
                None => Err(CeremonyError::CeremonyExpiredOrMissing),
            },
    {
        match self.slots.remove(&key) {
            Some(slot) => {
                if (now as u128) < slot.expires_at {
                    Ok(slot.state)
                } else {
                    Err(CeremonyError::CeremonyExpiredOrMissing)
                }
            },
            None => Err(CeremonyError::CeremonyExpiredOrMissing),
        }
    }

    /// Whether `key` holds a state that is live at `now`.
    pub fn is_pending(&self, key: u128, now: u64) -> (r: bool)
        ensures
            r == live_state(self@, key, now).is_some(),
    {
        match self.slots.get(&key) {
            Some(slot) => (now as u128) < slot.expires_at,
            None => false,
        }
    }
}

} // verus!
