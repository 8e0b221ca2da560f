//! The device state store: the single in-process cell holding the last-known
//! desk state and the last-known connectivity status.
//!
//! The store keeps no history and offers no notifications; the bus mirror is
//! its only writer and the policy loop and the command gateway re-read it on
//! their own schedule. Each field is replaced atomically as a whole; callers
//! that need mutual exclusion wrap the store in a lock of their own.

use vstd::prelude::*;
use crate::device::SvenPosition;
use crate::device::SvenState;

verus! {

/// Last-known desk state and connectivity status.
pub struct DeskStore {
    state: SvenState,
    status: Vec<u8>,
}

impl DeskStore {
    /// The last state the desk reported, or the unknown baseline.
    pub closed spec fn state_model(&self) -> SvenState {
        self.state
    }

    /// The last connectivity status the desk reported, as UTF-8 bytes.
    pub closed spec fn status_model(&self) -> Seq<u8> {
        self.status@
    }

    /// A fresh store: height unknown, position unknown, status `offline`.
    pub fn new() -> (r: DeskStore)
        ensures
            r.state_model() == (SvenState { height_mm: 0, position: SvenPosition::Custom }),
            r.status_model() == "offline"@.map_values(|c: char| c as u8),
    {
        let mut status: Vec<u8> = Vec::new();
        status.push(111);  // o
        status.push(102);  // f
        status.push(102);  // f
        status.push(108);  // l
        status.push(105);  // i
        status.push(110);  // n
        status.push(101);  // e
        proof {
            reveal_strlit("offline");
            assert(status@ =~= "offline"@.map_values(|c: char| c as u8));
        }
        DeskStore { state: SvenState::initial(), status }
    }

    /// A consistent snapshot of the desk state.
    pub fn read_state(&self) -> (r: SvenState)
        ensures
            r == self.state_model(),
    {
        self.state
    }

    /// A consistent snapshot of the connectivity status.
    pub fn read_status(&self) -> (r: Vec<u8>)
        ensures
            r@ == self.status_model(),
    {
        vstd::slice::slice_to_vec(self.status.as_slice())
    }

    /// A consistent snapshot of both fields at once.
    pub fn read(&self) -> (r: (SvenState, Vec<u8>))
        ensures
            r.0 == self.state_model(),
            r.1@ == self.status_model(),
    {
        (self.read_state(), self.read_status())
    }

    /// Replace the desk state as a whole. The status is untouched.
    pub fn write_state(&mut self, s: SvenState)
        ensures
            final(self).state_model() == s,
            final(self).status_model() == old(self).status_model(),
    {
        self.state = s;
    }

    /// Replace the connectivity status as a whole. The state is untouched.
    pub fn write_status(&mut self, status: Vec<u8>)
        ensures
            final(self).status_model() == status@,
            final(self).state_model() == old(self).state_model(),
    {
        self.status = status;
    }
}

} // verus!
