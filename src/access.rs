//! The first-caller-wins administrator lock that guards every component's
//! configuration entry points.
use vstd::prelude::*;
use crate::types::Addr;

verus! {

/// Who administers a component: nobody yet, or one fixed address.
#[derive(Clone, Copy, Debug, PartialEq, Eq, Structural)]
pub enum AdminLock {
    Uninitialized,
    Owner(Addr),
}

impl AdminLock {
    pub fn new() -> (r: AdminLock)
        ensures
            r == AdminLock::Uninitialized,
    {
        AdminLock::Uninitialized
    }

    /// Whether `caller` may run a privileged entry point under this lock.
    pub open spec fn admits(self, caller: Addr) -> bool {
        match self {
            AdminLock::Uninitialized => true,
            AdminLock::Owner(a) => a == caller,
        }
    }

    /// Takes the lock for `caller` if nobody holds it; then tells whether
    /// `caller` holds it. A refused call leaves the lock as it was.
    pub fn check_admin(&mut self, caller: Addr) -> (r: bool)
        ensures
            r == old(self).admits(caller),
            r ==> *final(self) == AdminLock::Owner(caller),
            !r ==> *final(self) == *old(self),
    {
        match *self {
            AdminLock::Uninitialized => {
                *self = AdminLock::Owner(caller);
                true
            },
            AdminLock::Owner(a) => a == caller,
        }
    }
}

} // verus!
