use vstd::prelude::*;
use crate::role::Role;
use crate::room::{Room, Slots, slot_of, with_slot, full, vacant};

verus! {

/// What the registry holds: each room code mapped to its two slots.
pub type RoomMap<W> = Map<Seq<char>, Slots<W>>;

/// The slots of `c` in `m`, both empty where `m` has no room `c`.
pub open spec fn room_or_empty<W>(m: RoomMap<W>, c: Seq<char>) -> Slots<W> {
    if m.contains_key(c) {
        m[c]
    } else {
        (None, None)
    }
}

/// Room `c` exists and `role`'s slot in it holds a writer.
pub open spec fn occupied_in<W>(m: RoomMap<W>, c: Seq<char>, role: Role) -> bool {
    m.contains_key(c) && slot_of(m[c], role) is Some
}

/// Room `c` exists and both of its slots hold a writer.
pub open spec fn complete_in<W>(m: RoomMap<W>, c: Seq<char>) -> bool {
    m.contains_key(c) && full(m[c])
}

/// `m` after `w` took `role`'s slot in room `c`, the room being created if absent.
pub open spec fn joined<W>(m: RoomMap<W>, c: Seq<char>, role: Role, w: W) -> RoomMap<W> {
    m.insert(c, with_slot(room_or_empty(m, c), role, Some(w)))
}

/// `m` after an attempt by `w` to join `role` in room `c`: refused, and
/// `m` kept, where the slot is taken.
pub open spec fn join_attempt<W>(m: RoomMap<W>, c: Seq<char>, role: Role, w: W) -> RoomMap<W> {
    if occupied_in(m, c, role) {
        m
    } else {
        joined(m, c, role, w)
    }
}

/// `m` after `role` left room `c`: the room goes away once both slots are empty.
pub open spec fn vacated<W>(m: RoomMap<W>, c: Seq<char>, role: Role) -> RoomMap<W> {
    if m.contains_key(c) {
        if vacant(with_slot(m[c], role, None)) {
            m.remove(c)
        } else {
            m.insert(c, with_slot(m[c], role, None))
        }
    } else {
        m
    }
}

/// `m` after the writer of `role` in room `c` was detached for a send.
pub open spec fn detached<W>(m: RoomMap<W>, c: Seq<char>, role: Role) -> RoomMap<W> {
    if m.contains_key(c) {
        m.insert(c, with_slot(m[c], role, None))
    } else {
        m
    }
}

/// `m` after a detached writer `w` was handed back to `role`'s slot in room
/// `c`; dropped where the room is gone.
pub open spec fn reattached<W>(m: RoomMap<W>, c: Seq<char>, role: Role, w: W) -> RoomMap<W> {
    if m.contains_key(c) {
        m.insert(c, with_slot(m[c], role, Some(w)))
    } else {
        m
    }
}

/// `rooms` lists each room of `m` once, with its slots.
pub closed spec fn rooms_match<W>(rooms: Seq<Room<W>>, m: RoomMap<W>) -> bool {
    &&& forall|i: int, j: int|
        0 <= i < j < rooms.len() ==> rooms[i].code_view() != rooms[j].code_view()
    &&& forall|i: int|
        0 <= i < rooms.len() ==> m.contains_key(#[trigger] rooms[i].code_view()) && m[rooms[
            i
        ].code_view()] == rooms[i].slots()
    &&& forall|k: Seq<char>|
        m.contains_key(k) ==> exists|i: int| 0 <= i < rooms.len() && #[trigger] rooms[i].code_view() == k
}

proof fn lemma_match_update<W>(rooms: Seq<Room<W>>, m: RoomMap<W>, i: int, room: Room<W>)
    requires
        rooms_match(rooms, m),
        0 <= i < rooms.len(),
        room.code_view() == rooms[i].code_view(),
    ensures
        rooms_match(rooms.update(i, room), m.insert(room.code_view(), room.slots())),
{
    let r2 = rooms.update(i, room);
    let m2 = m.insert(room.code_view(), room.slots());
    assert forall|k: Seq<char>| m2.contains_key(k) implies exists|j: int|
        0 <= j < r2.len() && #[trigger] r2[j].code_view() == k by {
        if k != room.code_view() {
            let j = choose|j: int| 0 <= j < rooms.len() && #[trigger] rooms[j].code_view() == k;
            assert(r2[j].code_view() == k);
        } else {
            assert(r2[i].code_view() == k);
        }
    }
}

proof fn lemma_match_push<W>(rooms: Seq<Room<W>>, m: RoomMap<W>, room: Room<W>)
    requires
        rooms_match(rooms, m),
        !m.contains_key(room.code_view()),
    ensures
        rooms_match(rooms.push(room), m.insert(room.code_view(), room.slots())),
{
    let r2 = rooms.push(room);
    let m2 = m.insert(room.code_view(), room.slots());
    assert forall|k: Seq<char>| m2.contains_key(k) implies exists|j: int|
        0 <= j < r2.len() && #[trigger] r2[j].code_view() == k by {
        if k != room.code_view() {
            let j = choose|j: int| 0 <= j < rooms.len() && #[trigger] rooms[j].code_view() == k;
            assert(r2[j].code_view() == k);
        } else {
            assert(r2[rooms.len() as int].code_view() == k);
        }
    }
}

proof fn lemma_match_remove<W>(rooms: Seq<Room<W>>, m: RoomMap<W>, i: int)
    requires
        rooms_match(rooms, m),
        0 <= i < rooms.len(),
    ensures
        rooms_match(rooms.remove(i), m.remove(rooms[i].code_view())),
{
    let c = rooms[i].code_view();
    let r2 = rooms.remove(i);
    let m2 = m.remove(c);
    assert forall|j: int| 0 <= j < r2.len() implies m2.contains_key(#[trigger] r2[j].code_view())
        && m2[r2[j].code_view()] == r2[j].slots() by {
        if j < i {
            assert(r2[j] == rooms[j]);
        } else {
            assert(r2[j] == rooms[j + 1]);
        }
    }
    assert forall|a: int, b: int| 0 <= a < b < r2.len() implies r2[a].code_view()
        != r2[b].code_view() by {
        let a0 = if a < i { a } else { a + 1 };
        let b0 = if b < i { b } else { b + 1 };
        assert(r2[a] == rooms[a0]);
        assert(r2[b] == rooms[b0]);
    }
    assert forall|k: Seq<char>| m2.contains_key(k) implies exists|j: int|
        0 <= j < r2.len() && #[trigger] r2[j].code_view() == k by {
        let j = choose|j: int| 0 <= j < rooms.len() && #[trigger] rooms[j].code_view() == k;
        if j < i {
            assert(r2[j] == rooms[j]);
        } else {
            assert(j != i);
            assert(r2[j - 1] == rooms[j]);
        }
    }
}

/// Why a join was refused.
#[derive(Clone, Copy, Debug, PartialEq, Eq, Structural)]
pub enum JoinError {
    /// The role's slot in the room is already taken.
    RoleConflict,
}

/// The map from room code to room. Every operation is a short in-memory
/// step, so a lock around the registry is never held across a send.
///
/// The rooms sit in a `Vec` whose codes are unique, rather than in a
/// `HashMap`: vstd states `HashMap` lookups only for key types whose hashing
/// it models (integers and the like), and `String` is not one of them.
pub struct Registry<W> {
    rooms: Vec<Room<W>>,
    model: Ghost<RoomMap<W>>,
}

impl<W> View for Registry<W> {
    type V = RoomMap<W>;

    closed spec fn view(&self) -> RoomMap<W> {
        self.model@
    }
}

impl<W> Registry<W> {
    /// Room codes are unique and the rooms are exactly the model.
    pub closed spec fn wf(&self) -> bool {
        rooms_match(self.rooms@, self.model@)
    }

    /// A registry with no rooms.
    pub fn new() -> (r: Self)
        ensures
            r.wf(),
            r@ == RoomMap::<W>::empty(),
    {
        Registry { rooms: Vec::new(), model: Ghost(Map::empty()) }
    }

    fn find(&self, code: &String) -> (r: Option<usize>)
        requires
            self.wf(),
        ensures
            match r {
                Some(i) => i < self.rooms.len() && self.rooms[i as int].code_view() == code@,
                None => !self@.contains_key(code@),
            },
    {
        let mut i: usize = 0;
        while i < self.rooms.len()
            invariant
                i <= self.rooms.len(),
                forall|j: int| 0 <= j < i ==> self.rooms[j].code_view() != code@,
            decreases self.rooms.len() - i,
        {
            if self.rooms[i].has_code(code) {
                return Some(i);
            }
            i += 1;
        }
        None
    }

    /// Takes `role`'s slot in room `code` for `writer`, creating the room if
    /// absent. Refused when the slot is already taken; otherwise says whether
    /// the room is now complete.
    pub fn join_or_create(&mut self, code: String, role: Role, writer: W) -> (r: Result<
        bool,
        JoinError,
    >)
        requires
            old(self).wf(),
        ensures
            final(self).wf(),
            final(self)@ == join_attempt(old(self)@, code@, role, writer),
            occupied_in(old(self)@, code@, role) ==> r == Err::<bool, JoinError>(
                JoinError::RoleConflict,
            ) && final(self)@ == old(self)@,
            !occupied_in(old(self)@, code@, role) ==> final(self)@ == joined(
                old(self)@,
                code@,
                role,
                writer,
            ) && r == Ok::<bool, JoinError>(complete_in(final(self)@, code@)),
    {
        match self.find(&code) {
            Some(i) => {
                if self.rooms[i].is_occupied(role) {
                    return Err(JoinError::RoleConflict);
                }
                let ghost old_rooms = self.rooms@;
                self.rooms[i].put(role, writer);
                let ghost room = self.rooms[i as int];
                self.model = Ghost(self.model@.insert(room.code_view(), room.slots()));
                proof {
                    lemma_match_update(old_rooms, old(self)@, i as int, room);
                }
                Ok(self.rooms[i].is_complete())
            },
            None => {
                let ghost c = code@;
                let mut room = Room::new(code);
                room.put(role, writer);
                let complete = room.is_complete();
                let ghost s = room.slots();
                let ghost old_rooms = self.rooms@;
                let ghost room_g = room;
                self.rooms.push(room);
                self.model = Ghost(self.model@.insert(c, s));
                proof {
                    lemma_match_push(old_rooms, old(self)@, room_g);
                }
                Ok(complete)
            },
        }
    }

    /// Detaches the writer of `role` in room `code` for the duration of one
    /// send, leaving the slot empty; `None` when the room or the writer is
    /// absent.
    pub fn take_writer(&mut self, code: &String, role: Role) -> (r: Option<W>)
        requires
            old(self).wf(),
        ensures
            final(self).wf(),
            r == (if old(self)@.contains_key(code@) {
                slot_of(old(self)@[code@], role)
            } else {
                None
            }),
            final(self)@ == detached(old(self)@, code@, role),
    {
        match self.find(code) {
            Some(i) => {
                let ghost old_rooms = self.rooms@;
                let w = self.rooms[i].take(role);
                let ghost room = self.rooms[i as int];
                self.model = Ghost(self.model@.insert(room.code_view(), room.slots()));
                proof {
                    lemma_match_update(old_rooms, old(self)@, i as int, room);
                }
                w
            },
            None => None,
        }
    }

    /// Hands a detached writer back to `role`'s slot in room `code`, whatever
    /// the slot holds meanwhile. Where the room is gone the writer is
    /// dropped: nobody can reach it any more. Says whether it was restored.
    pub fn return_writer(&mut self, code: &String, role: Role, writer: W) -> (r: bool)
        requires
            old(self).wf(),
        ensures
            final(self).wf(),
            r == old(self)@.contains_key(code@),
            final(self)@ == reattached(old(self)@, code@, role, writer),
    {
        match self.find(code) {
            Some(i) => {
                let ghost old_rooms = self.rooms@;
                self.rooms[i].put(role, writer);
                let ghost room = self.rooms[i as int];
                self.model = Ghost(self.model@.insert(room.code_view(), room.slots()));
                proof {
                    lemma_match_update(old_rooms, old(self)@, i as int, room);
                }
                true
            },
            None => false,
        }
    }

    /// Clears `role`'s slot in room `code` and removes the room once both
    /// slots are empty. Does nothing where the room is absent.
    pub fn leave(&mut self, code: &String, role: Role)
        requires
            old(self).wf(),
        ensures
            final(self).wf(),
            final(self)@ == vacated(old(self)@, code@, role),
    {
        match self.find(code) {
            Some(i) => {
                let ghost old_rooms = self.rooms@;
                let _gone = self.rooms[i].take(role);
                let ghost room = self.rooms[i as int];
                self.model = Ghost(self.model@.insert(room.code_view(), room.slots()));
                proof {
                    lemma_match_update(old_rooms, old(self)@, i as int, room);
                }
                if self.rooms[i].is_vacant() {
                    let ghost mid_rooms = self.rooms@;
                    let ghost mid = self.model@;
                    let _room = self.rooms.remove(i);
                    self.model = Ghost(self.model@.remove(code@));
                    proof {
                        lemma_match_remove(mid_rooms, mid, i as int);
                        assert(self.model@ =~= old(self)@.remove(code@));
                    }
                } else {
                    proof {
                        assert(self.model@ =~= old(self)@.insert(code@, room.slots()));
                    }
                }
            },
            None => {},
        }
    }

    /// Room `code` exists.
    pub fn contains(&self, code: &String) -> (r: bool)
        requires
            self.wf(),
        ensures
            r == self@.contains_key(code@),
    {
        self.find(code).is_some()
    }

    /// Room `code` exists and `role`'s slot in it is taken.
    pub fn is_occupied(&self, code: &String, role: Role) -> (r: bool)
        requires
            self.wf(),
        ensures
            r == occupied_in(self@, code@, role),
    {
        match self.find(code) {
            Some(i) => self.rooms[i].is_occupied(role),
            None => false,
        }
    }

    /// Room `code` exists with both roles present; false once a peer left.
    pub fn is_complete(&self, code: &String) -> (r: bool)
        requires
            self.wf(),
        ensures
            r == complete_in(self@, code@),
    {
        match self.find(code) {
            Some(i) => self.rooms[i].is_complete(),
            None => false,
        }
    }
}

} // verus!
