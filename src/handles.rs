//! A table of live objects keyed by handles that are never reused, so that a
//! consumed or destroyed handle is recognised as stale instead of being taken
//! for a live object.
use vstd::prelude::*;
use std::collections::HashMap;
use vstd::string::StringExecFns;
use crate::error::{BoundaryError, HandleRole};

verus! {

broadcast use vstd::std_specs::hash::group_hash_axioms;

/// The largest handle a table issues, so that every handle is a positive
/// signed 64-bit value.
pub const LAST_HANDLE: u64 = 0x7fff_ffff_ffff_ffff;

/// Live objects by handle.
pub struct HandleTable<T> {
    live: HashMap<u64, T>,
    next: u64,
}

impl<T> HandleTable<T> {
    /// The live objects, by handle.
    pub closed spec fn view(&self) -> Map<u64, T> {
        self.live@
    }

    /// Every handle issued so far is below this one.
    pub closed spec fn issued_below(&self) -> nat {
        self.next as nat
    }

    /// Handles are positive, and every live one was issued.
    pub closed spec fn wf(&self) -> bool {
        &&& 0 < self.next <= LAST_HANDLE + 1
        &&& forall|h: u64| #[trigger] self.live@.contains_key(h) ==> 0 < h < self.next
    }

    /// The empty table.
    pub fn new() -> (r: HandleTable<T>)
        ensures
            r.wf(),
            r.view() == Map::<u64, T>::empty(),
            r.issued_below() == 1,
    {
        HandleTable { live: HashMap::new(), next: 1 }
    }

    /// Stores `v` under a new handle, above every handle issued before.
    /// Refused with `InvalidState` once the handles are used up.
    pub fn insert(&mut self, v: T) -> (r: Result<u64, BoundaryError>)
        requires
            old(self).wf(),
        ensures
            final(self).wf(),
            match r {
                Ok(h) => {
                    &&& 0 < h <= LAST_HANDLE
                    &&& h == old(self).issued_below()
                    &&& !old(self).view().contains_key(h)
                    &&& final(self).view() == old(self).view().insert(h, v)
                    &&& final(self).issued_below() == h + 1
                },
                Err(e) => {
                    &&& e is InvalidState
                    &&& old(self).issued_below() == LAST_HANDLE + 1
                    &&& final(self).view() == old(self).view()
                    &&& final(self).issued_below() == old(self).issued_below()
                },
            },
    {
        if self.next > LAST_HANDLE {
            return Err(BoundaryError::InvalidState(String::from_str("no handle left")));
        }
        let h = self.next;
        let ghost before = self.live@;
        assert(!before.contains_key(h));
        self.live.insert(h, v);
        self.next = h + 1;
        Ok(h)
    }

    /// Takes the object behind `h` out of the table; the handle is dead from
    /// then on. The zero handle is refused with `NullPointer` naming `role`;
    /// a handle that is not live, because it was consumed, destroyed or never
    /// issued, is refused with `InvalidState`. A refused call changes nothing.
    pub fn take(&mut self, h: u64, role: HandleRole) -> (r: Result<T, BoundaryError>)
        requires
            old(self).wf(),
        ensures
            final(self).wf(),
            final(self).issued_below() == old(self).issued_below(),
            !final(self).view().contains_key(h),
            h == 0 ==> r == Err::<T, BoundaryError>(BoundaryError::NullPointer(role)),
            h != 0 && !old(self).view().contains_key(h) ==> (r matches Err(e) && e is InvalidState),
            r is Err ==> final(self).view() == old(self).view(),
            old(self).view().contains_key(h) ==> (r matches Ok(v) && v == old(self).view()[h]
                && final(self).view() == old(self).view().remove(h)),
    {
        if h == 0 {
            return Err(BoundaryError::NullPointer(role));
        }
        match self.live.remove(&h) {
            Some(v) => Ok(v),
            None => {
                assert(self.live@ =~= old(self).live@.remove(h));
                Err(BoundaryError::InvalidState(String::from_str("stale handle")))
            },
        }
    }

    /// Drops the object behind `h`, if it is live; on the zero handle or a
    /// handle that is not live this does nothing.
    pub fn release(&mut self, h: u64)
        requires
            old(self).wf(),
        ensures
            final(self).wf(),
            final(self).view() == old(self).view().remove(h),
            final(self).issued_below() == old(self).issued_below(),
    {
        let _ = self.live.remove(&h);
        assert(self.live@ =~= old(self).live@.remove(h));
    }

    /// Whether `h` is live.
    pub fn is_live(&self, h: u64) -> (r: bool)
        requires
            self.wf(),
        ensures
            r == self.view().contains_key(h),
    {
        self.live.contains_key(&h)
    }
}

/// A consumed builder handle is never live again: every live handle lies
/// below the next one the table issues, so no later `insert` hands out a
/// handle equal to one taken before, and `take` refuses the taken one with
/// `InvalidState` without changing the table.
pub proof fn lemma_live_handle_below_next<T>(t: HandleTable<T>, h: u64)
    requires
        t.wf(),
        t.view().contains_key(h),
    ensures
        0 < h < t.issued_below(),
{
}

} // verus!
