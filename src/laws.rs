use vstd::prelude::*;
use crate::role::{Role, counterpart};
use crate::room::slot_of;
use crate::registry::{RoomMap, occupied_in, complete_in, join_attempt, vacated, detached, reattached};
use crate::session::{Inbound, RelayStep, relay_transition};

verus! {

/// `m` after each writer of `ws`, in turn, tried to join `role` in room `c`.
pub open spec fn join_attempts<W>(m: RoomMap<W>, c: Seq<char>, role: Role, ws: Seq<W>) -> RoomMap<W>
    decreases ws.len(),
{
    if ws.len() == 0 {
        m
    } else {
        join_attempts(join_attempt(m, c, role, ws[0]), c, role, ws.drop_first())
    }
}

/// However many writers try to join one slot, it holds one writer: the one
/// that held it before, or else the first that tried. The other slots and
/// rooms are as they were or as that first join left them.
pub proof fn lemma_no_double_occupancy<W>(m: RoomMap<W>, c: Seq<char>, role: Role, ws: Seq<W>)
    requires
        ws.len() > 0,
    ensures
        occupied_in(m, c, role) ==> join_attempts(m, c, role, ws) == m,
        !occupied_in(m, c, role) ==> join_attempts(m, c, role, ws) == join_attempt(
            m,
            c,
            role,
            ws[0],
        ),
        !occupied_in(m, c, role) ==> slot_of(join_attempts(m, c, role, ws)[c], role) == Some(
            ws[0],
        ),
    decreases ws.len(),
{
    lemma_attempts_on_taken_slot(join_attempt(m, c, role, ws[0]), c, role, ws.drop_first());
    if !occupied_in(m, c, role) {
        assert(occupied_in(join_attempt(m, c, role, ws[0]), c, role));
    }
}

proof fn lemma_attempts_on_taken_slot<W>(m: RoomMap<W>, c: Seq<char>, role: Role, ws: Seq<W>)
    requires
        occupied_in(m, c, role),
    ensures
        join_attempts(m, c, role, ws) == m,
    decreases ws.len(),
{
    if ws.len() > 0 {
        lemma_attempts_on_taken_slot(m, c, role, ws.drop_first());
    }
}

/// A complete room stays complete while nobody leaves it: through any join
/// attempt, any writer handed back, a leave from another room, and a
/// forward that detaches a writer of the room and hands it back.
pub proof fn lemma_completion_monotonic<W>(
    m: RoomMap<W>,
    c: Seq<char>,
    c2: Seq<char>,
    role: Role,
    w: W,
)
    requires
        complete_in(m, c),
    ensures
        complete_in(join_attempt(m, c2, role, w), c),
        complete_in(reattached(m, c2, role, w), c),
        c2 != c ==> complete_in(vacated(m, c2, role), c),
        complete_in(reattached(detached(m, c, role), c, role, slot_of(m[c], role)->0), c),
{
    lemma_forward_round_trip(m, c, role);
}

/// Detaching the writer of an occupied slot and handing it back leaves the
/// registry as it was.
pub proof fn lemma_forward_round_trip<W>(m: RoomMap<W>, c: Seq<char>, role: Role)
    requires
        occupied_in(m, c, role),
    ensures
        reattached(detached(m, c, role), c, role, slot_of(m[c], role)->0) == m,
{
    let w = slot_of(m[c], role)->0;
    assert(reattached(detached(m, c, role), c, role, w) =~= m);
}

/// Once both roles have left room `c`, in either order, the room is gone;
/// after one of two present roles left, the room holds the other alone.
pub proof fn lemma_cleanup<W>(m: RoomMap<W>, c: Seq<char>, role: Role)
    ensures
        !vacated(vacated(m, c, role), c, counterpart(role)).contains_key(c),
        complete_in(m, c) ==> vacated(m, c, role).contains_key(c) && !occupied_in(
            vacated(m, c, role),
            c,
            role,
        ) && slot_of(vacated(m, c, role)[c], counterpart(role)) == slot_of(
            m[c],
            counterpart(role),
        ),
{
}

/// The messages, each with the writer that took it, that a relaying
/// connection of `role` in room `c` hands on for the inbound events `evs`,
/// where each send succeeds and nobody else changes the room meanwhile.
pub open spec fn deliveries<W, M>(m: RoomMap<W>, c: Seq<char>, role: Role, evs: Seq<Inbound<M>>) -> Seq<
    (W, M),
>
    decreases evs.len(),
{
    if evs.len() == 0 {
        Seq::empty()
    } else {
        let target = counterpart(role);
        match relay_transition(evs[0]).1 {
            RelayStep::Forward(msg) => if occupied_in(m, c, target) {
                let w = slot_of(m[c], target)->0;
                seq![(w, msg)] + deliveries(
                    reattached(detached(m, c, target), c, target, w),
                    c,
                    role,
                    evs.drop_first(),
                )
            } else {
                deliveries(m, c, role, evs.drop_first())
            },
            RelayStep::Skip => deliveries(m, c, role, evs.drop_first()),
            RelayStep::Stop => Seq::empty(),
        }
    }
}

/// While the peer stays connected, the messages that one side sends reach
/// the peer's writer exactly once each and in the order sent.
pub proof fn lemma_forward_order<W, M>(
    m: RoomMap<W>,
    c: Seq<char>,
    role: Role,
    msgs: Seq<M>,
    evs: Seq<Inbound<M>>,
)
    requires
        occupied_in(m, c, counterpart(role)),
        evs.len() == msgs.len(),
        forall|i: int| 0 <= i < evs.len() ==> evs[i] == Inbound::Data(msgs[i]),
    ensures
        deliveries(m, c, role, evs) == msgs.map_values(
            |x: M| (slot_of(m[c], counterpart(role))->0, x),
        ),
    decreases evs.len(),
{
    let target = counterpart(role);
    let w = slot_of(m[c], target)->0;
    if evs.len() == 0 {
        assert(msgs.map_values(|x: M| (w, x)) =~= Seq::<(W, M)>::empty());
    } else {
        lemma_forward_round_trip(m, c, target);
        assert(relay_transition(evs[0]).1 == RelayStep::Forward(msgs[0]));
        lemma_forward_order(m, c, role, msgs.drop_first(), evs.drop_first());
        assert(msgs.map_values(|x: M| (w, x)) =~= seq![(w, msgs[0])] + msgs.drop_first().map_values(
            |x: M| (w, x),
        ));
    }
}

} // verus!
