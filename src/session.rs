use vstd::prelude::*;
use crate::role::{Role, counterpart};
use crate::registry::{
    Registry, JoinError, occupied_in, complete_in, joined, detached, reattached, vacated,
};
use crate::room::slot_of;

verus! {

/// One event read from a connection's inbound side.
pub enum Inbound<M> {
    /// A text or binary message.
    Data(M),
    /// A close frame.
    Close,
    /// Any other control frame.
    Control,
    /// The stream ended.
    Ended,
    /// Reading failed.
    Failed,
}

/// Where a connection stands in its lifecycle once registered.
#[derive(Clone, Copy, Debug, PartialEq, Eq, Structural)]
pub enum Phase {
    /// Registered alone; polling for the peer while draining inbound frames.
    Waiting,
    /// Paired; forwarding inbound messages to the peer.
    Relaying,
    /// Done reading; the room must be left.
    Closing,
    /// The room was left; nothing more happens.
    Closed,
}

/// What the waiting loop does after one event.
#[derive(Clone, Copy, Debug, PartialEq, Eq, Structural)]
pub enum WaitStep {
    /// Check the room again after the poll interval.
    Poll,
    /// A message arrived before the peer: it is dropped.
    Discard,
    /// Stop waiting and leave the room.
    Stop,
}

/// What the relay loop does with one inbound event.
pub enum RelayStep<M> {
    /// Send the message to the peer through the forward protocol.
    Forward(M),
    /// Nothing to forward.
    Skip,
    /// Stop relaying and leave the room.
    Stop,
}

/// How one forward attempt ended.
#[derive(Clone, Copy, Debug, PartialEq, Eq, Structural)]
pub enum ForwardOutcome {
    /// The peer's writer took the message.
    Delivered,
    /// The peer's slot was empty: the message is dropped and relaying goes on.
    PeerUnavailable,
    /// The send failed: relaying stops.
    SendFailed,
}

/// The phase and step that a waiting connection takes on an event; `None`
/// is a poll interval that passed with nothing read.
pub open spec fn wait_transition<M>(ev: Option<Inbound<M>>) -> (Phase, WaitStep) {
    match ev {
        None => (Phase::Waiting, WaitStep::Poll),
        Some(Inbound::Data(_)) => (Phase::Waiting, WaitStep::Discard),
        Some(Inbound::Control) => (Phase::Waiting, WaitStep::Poll),
        Some(_) => (Phase::Closing, WaitStep::Stop),
    }
}

/// The phase and step that a relaying connection takes on an event.
pub open spec fn relay_transition<M>(ev: Inbound<M>) -> (Phase, RelayStep<M>) {
    match ev {
        Inbound::Data(m) => (Phase::Relaying, RelayStep::Forward(m)),
        Inbound::Control => (Phase::Relaying, RelayStep::Skip),
        _ => (Phase::Closing, RelayStep::Stop),
    }
}

/// How a forward ends, given whether the peer's writer was detached and,
/// if so, whether the send succeeded.
pub open spec fn outcome_of(detached_writer: bool, sent: bool) -> ForwardOutcome {
    if !detached_writer {
        ForwardOutcome::PeerUnavailable
    } else if sent {
        ForwardOutcome::Delivered
    } else {
        ForwardOutcome::SendFailed
    }
}

/// One connection's state: its room, its role and its phase.
pub struct Session {
    code: String,
    role: Role,
    phase: Phase,
}

impl Session {
    pub closed spec fn code_view(&self) -> Seq<char> {
        self.code@
    }

    pub closed spec fn role_view(&self) -> Role {
        self.role
    }

    pub closed spec fn phase_view(&self) -> Phase {
        self.phase
    }

    /// Registers `writer` under `role` in room `code`. A refused join
    /// leaves the registry as it was; an accepted one relays at once where
    /// the room is complete and waits otherwise.
    pub fn join<W>(reg: &mut Registry<W>, code: String, role: Role, writer: W) -> (r: Result<
        Session,
        JoinError,
    >)
        requires
            old(reg).wf(),
        ensures
            final(reg).wf(),
            occupied_in(old(reg)@, code@, role) ==> r == Err::<Session, JoinError>(
                JoinError::RoleConflict,
            ) && final(reg)@ == old(reg)@,
            !occupied_in(old(reg)@, code@, role) ==> final(reg)@ == joined(
                old(reg)@,
                code@,
                role,
                writer,
            ) && r is Ok,
            r matches Ok(s) ==> s.code_view() == code@ && s.role_view() == role && s.phase_view()
                == (if complete_in(final(reg)@, code@) {
                Phase::Relaying
            } else {
                Phase::Waiting
            }),
    {
        match reg.join_or_create(code.clone(), role, writer) {
            Ok(complete) => {
                let phase = if complete {
                    Phase::Relaying
                } else {
                    Phase::Waiting
                };
                Ok(Session { code, role, phase })
            },
            Err(e) => Err(e),
        }
    }

    pub fn code(&self) -> (r: &String)
        ensures
            r@ == self.code_view(),
    {
        &self.code
    }

    pub fn role(&self) -> (r: Role)
        ensures
            r == self.role_view(),
    {
        self.role
    }

    pub fn phase(&self) -> (r: Phase)
        ensures
            r == self.phase_view(),
    {
        self.phase
    }

    /// The role whose writer this connection's messages go to.
    pub fn target(&self) -> (r: Role)
        ensures
            r == counterpart(self.role_view()),
    {
        self.role.other()
    }

    /// A waiting connection checks its room: it starts relaying once the
    /// room is complete. Says whether the connection now relays.
    pub fn poll<W>(&mut self, reg: &Registry<W>) -> (r: bool)
        requires
            reg.wf(),
        ensures
            final(self).code_view() == old(self).code_view(),
            final(self).role_view() == old(self).role_view(),
            final(self).phase_view() == (if old(self).phase_view() == Phase::Waiting
                && complete_in(reg@, old(self).code_view()) {
                Phase::Relaying
            } else {
                old(self).phase_view()
            }),
            r == (final(self).phase_view() == Phase::Relaying),
    {
        if self.phase == Phase::Waiting && reg.is_complete(&self.code) {
            self.phase = Phase::Relaying;
        }
        self.phase == Phase::Relaying
    }

    /// A waiting connection handles one inbound event, or `None` for a poll
    /// interval with nothing read. Outside `Waiting` nothing changes and the
    /// step is `Stop`.
    pub fn on_wait_event<M>(&mut self, ev: Option<Inbound<M>>) -> (r: WaitStep)
        ensures
            final(self).code_view() == old(self).code_view(),
            final(self).role_view() == old(self).role_view(),
            old(self).phase_view() == Phase::Waiting ==> (final(self).phase_view(), r)
                == wait_transition(ev),
            old(self).phase_view() != Phase::Waiting ==> final(self).phase_view()
                == old(self).phase_view() && r == WaitStep::Stop,
    {
        if self.phase != Phase::Waiting {
            return WaitStep::Stop;
        }
        match ev {
            None => WaitStep::Poll,
            Some(Inbound::Data(_)) => WaitStep::Discard,
            Some(Inbound::Control) => WaitStep::Poll,
            Some(_) => {
                self.phase = Phase::Closing;
                WaitStep::Stop
            },
        }
    }

    /// A relaying connection handles one inbound event: messages are handed
    /// out for forwarding, control frames skipped, and the end of the
    /// stream stops relaying. Outside `Relaying` nothing changes and the
    /// step is `Stop`.
    pub fn on_relay_event<M>(&mut self, ev: Inbound<M>) -> (r: RelayStep<M>)
        ensures
            final(self).code_view() == old(self).code_view(),
            final(self).role_view() == old(self).role_view(),
            old(self).phase_view() == Phase::Relaying ==> (final(self).phase_view(), r)
                == relay_transition(ev),
            old(self).phase_view() != Phase::Relaying ==> final(self).phase_view()
                == old(self).phase_view() && r is Stop,
    {
        if self.phase != Phase::Relaying {
            return RelayStep::Stop;
        }
        match ev {
            Inbound::Data(m) => RelayStep::Forward(m),
            Inbound::Control => RelayStep::Skip,
            _ => {
                self.phase = Phase::Closing;
                RelayStep::Stop
            },
        }
    }

    /// The first half of the forward protocol: detaches the peer's writer
    /// from the registry, so that the send runs without the registry.
    pub fn detach_peer<W>(&self, reg: &mut Registry<W>) -> (r: Option<W>)
        requires
            old(reg).wf(),
        ensures
            final(reg).wf(),
            r == (if old(reg)@.contains_key(self.code_view()) {
                slot_of(old(reg)@[self.code_view()], counterpart(self.role_view()))
            } else {
                None
            }),
            final(reg)@ == detached(old(reg)@, self.code_view(), counterpart(self.role_view())),
    {
        let target = self.role.other();
        reg.take_writer(&self.code, target)
    }

    /// The second half of the forward protocol: hands the peer's writer
    /// back, whatever the send gave. Says whether it found its room.
    pub fn reattach_peer<W>(&self, reg: &mut Registry<W>, writer: W) -> (r: bool)
        requires
            old(reg).wf(),
        ensures
            final(reg).wf(),
            r == old(reg)@.contains_key(self.code_view()),
            final(reg)@ == reattached(
                old(reg)@,
                self.code_view(),
                counterpart(self.role_view()),
                writer,
            ),
    {
        let target = self.role.other();
        reg.return_writer(&self.code, target, writer)
    }

    /// A relaying connection learns how a forward ended: a failed send
    /// stops relaying, anything else goes on. Returns how it ended.
    pub fn on_forwarded(&mut self, detached_writer: bool, sent: bool) -> (r: ForwardOutcome)
        ensures
            final(self).code_view() == old(self).code_view(),
            final(self).role_view() == old(self).role_view(),
            r == outcome_of(detached_writer, sent),
            final(self).phase_view() == (if old(self).phase_view() == Phase::Relaying && r
                == ForwardOutcome::SendFailed {
                Phase::Closing
            } else {
                old(self).phase_view()
            }),
    {
        let outcome = if !detached_writer {
            ForwardOutcome::PeerUnavailable
        } else if sent {
            ForwardOutcome::Delivered
        } else {
            ForwardOutcome::SendFailed
        };
        if self.phase == Phase::Relaying && outcome == ForwardOutcome::SendFailed {
            self.phase = Phase::Closing;
        }
        outcome
    }

    /// Leaves the room, however the connection got here, and closes. Once
    /// closed, the registry is not touched again.
    pub fn close<W>(&mut self, reg: &mut Registry<W>)
        requires
            old(reg).wf(),
        ensures
            final(reg).wf(),
            final(self).code_view() == old(self).code_view(),
            final(self).role_view() == old(self).role_view(),
            final(self).phase_view() == Phase::Closed,
            old(self).phase_view() == Phase::Closed ==> final(reg)@ == old(reg)@,
            old(self).phase_view() != Phase::Closed ==> final(reg)@ == vacated(
                old(reg)@,
                old(self).code_view(),
                old(self).role_view(),
            ),
    {
        if self.phase != Phase::Closed {
            reg.leave(&self.code, self.role);
            self.phase = Phase::Closed;
        }
    }
}

} // verus!
