//! The slot that holds the acquired credential for reuse across launches.
use vstd::prelude::*;

verus! {

/// Holds at most one acquired credential. An empty slot is filled by the first
/// acquisition that succeeds; a failed one leaves it empty, so that the next
/// request tries again. The slot is never refreshed.
pub struct CredentialCache<T> {
    slot: Option<T>,
}

/// Whether a request made while the slot holds `before` runs an acquisition.
pub open spec fn acquires<T>(before: Option<T>) -> bool {
    before is None
}

/// What a request made while the slot holds `before` may return as `r`: the
/// held credential, else whatever the acquisition gave.
pub open spec fn serves<T>(before: Option<T>, r: Option<T>) -> bool {
    before is Some ==> r == before
}

impl<T: Copy> CredentialCache<T> {
    /// The credential held, if any.
    pub closed spec fn cached(&self) -> Option<T> {
        self.slot
    }

    /// An empty slot.
    pub fn new() -> (r: Self)
        ensures
            r.cached() is None,
    {
        CredentialCache { slot: None }
    }

    /// The credential held, if any.
    pub fn get(&self) -> (r: Option<T>)
        ensures
            r == self.cached(),
    {
        self.slot
    }

    /// The held credential; where there is none, the result of `acquire`, which
    /// is kept when it is one. The slot holds the result afterwards.
    pub fn get_or_acquire<F: FnOnce() -> Option<T>>(&mut self, acquire: F) -> (r: Option<T>)
        requires
            acquires(old(self).cached()) ==> acquire.requires(()),
        ensures
            final(self).cached() == r,
            serves(old(self).cached(), r),
            acquires(old(self).cached()) ==> acquire.ensures((), r),
    {
        match self.slot {
            Some(t) => Some(t),
            None => {
                let r = acquire();
                self.slot = r;
                r
            },
        }
    }
}

/// Once a request has returned a credential, the next two requests return that
/// same credential and neither runs an acquisition.
pub proof fn lemma_cached_credential_reused<T>(r1: Option<T>, r2: Option<T>, r3: Option<T>)
    requires
        r1 is Some,
        serves(r1, r2),
        serves(r2, r3),
    ensures
        r2 == r1,
        r3 == r1,
        !acquires(r1),
        !acquires(r2),
{
}

} // verus!
