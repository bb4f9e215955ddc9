use vstd::prelude::*;

verus! {

/// The identity a connection declares when it joins a room.
#[derive(Clone, Copy, Debug, PartialEq, Eq, Structural)]
pub enum Role {
    /// Joins with the token `sender`.
    Initiator,
    /// Joins with the token `receiver`.
    Responder,
}

/// The role on the other side of a room.
pub open spec fn counterpart(role: Role) -> Role {
    match role {
        Role::Initiator => Role::Responder,
        Role::Responder => Role::Initiator,
    }
}

impl Role {
    /// The role that messages of this role are forwarded to.
    pub fn other(self) -> (r: Role)
        ensures
            r == counterpart(self),
            r != self,
    {
        match self {
            Role::Initiator => Role::Responder,
            Role::Responder => Role::Initiator,
        }
    }
}

} // verus!
