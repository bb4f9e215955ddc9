use vstd::prelude::*;
use crate::role::Role;

verus! {

/// The two role slots of a room, as `(initiator, responder)`.
pub type Slots<W> = (Option<W>, Option<W>);

/// The occupant of `role`'s slot.
pub open spec fn slot_of<W>(s: Slots<W>, role: Role) -> Option<W> {
    match role {
        Role::Initiator => s.0,
        Role::Responder => s.1,
    }
}

/// `s` with `role`'s slot set to `v` and the other slot kept.
pub open spec fn with_slot<W>(s: Slots<W>, role: Role, v: Option<W>) -> Slots<W> {
    match role {
        Role::Initiator => (v, s.1),
        Role::Responder => (s.0, v),
    }
}

/// Both roles are present.
pub open spec fn full<W>(s: Slots<W>) -> bool {
    s.0 is Some && s.1 is Some
}

/// Neither role is present: such a room is dead.
pub open spec fn vacant<W>(s: Slots<W>) -> bool {
    s.0 is None && s.1 is None
}

/// A pairing unit: a room code and at most one write handle per role.
pub struct Room<W> {
    code: String,
    initiator: Option<W>,
    responder: Option<W>,
}

impl<W> Room<W> {
    pub closed spec fn code_view(&self) -> Seq<char> {
        self.code@
    }

    pub closed spec fn slots(&self) -> Slots<W> {
        (self.initiator, self.responder)
    }

    /// An empty room for `code`.
    pub fn new(code: String) -> (r: Self)
        ensures
            r.code_view() == code@,
            vacant(r.slots()),
    {
        Room { code, initiator: None, responder: None }
    }

    pub fn code(&self) -> (r: &str)
        ensures
            r@ == self.code_view(),
    {
        self.code.as_str()
    }

    /// The room's code is `code`.
    pub fn has_code(&self, code: &String) -> (r: bool)
        ensures
            r == (self.code_view() == code@),
    {
        self.code == *code
    }

    /// Both slots are occupied.
    pub fn is_complete(&self) -> (r: bool)
        ensures
            r == full(self.slots()),
    {
        self.initiator.is_some() && self.responder.is_some()
    }

    /// Both slots are empty.
    pub fn is_vacant(&self) -> (r: bool)
        ensures
            r == vacant(self.slots()),
    {
        self.initiator.is_none() && self.responder.is_none()
    }

    /// `role`'s slot holds a writer.
    pub fn is_occupied(&self, role: Role) -> (r: bool)
        ensures
            r == (slot_of(self.slots(), role) is Some),
    {
        match role {
            Role::Initiator => self.initiator.is_some(),
            Role::Responder => self.responder.is_some(),
        }
    }

    /// Detaches the writer of `role`'s slot, leaving the slot empty.
    pub fn take(&mut self, role: Role) -> (r: Option<W>)
        ensures
            r == slot_of(old(self).slots(), role),
            final(self).slots() == with_slot(old(self).slots(), role, None),
            final(self).code_view() == old(self).code_view(),
    {
        match role {
            Role::Initiator => self.initiator.take(),
            Role::Responder => self.responder.take(),
        }
    }

    /// Stores `w` in `role`'s slot.
    pub fn put(&mut self, role: Role, w: W)
        ensures
            final(self).slots() == with_slot(old(self).slots(), role, Some(w)),
            final(self).code_view() == old(self).code_view(),
    {
        match role {
            Role::Initiator => self.initiator = Some(w),
            Role::Responder => self.responder = Some(w),
        }
    }
}

} // verus!
