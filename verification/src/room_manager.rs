//! Two-seat rooms, each bound to a rule, kept under reusable ids.

use std::collections::BTreeMap;
use vstd::prelude::*;
use vstd::std_specs::btree::*;
use vstd::std_specs::iter::IteratorSpec;
use crate::caro_protocol::{GameRule, PlayerId, RoomId};
use crate::id_pool::{IdPool, NO_ID, is_smallest_free, all_held_up_to};

verus! {

broadcast use group_btree_axioms;

/// A seat of a room together with the player that takes it.
#[derive(Debug, Clone, Copy, PartialEq, Eq, Structural)]
pub enum PlayerOrder {
    Player1(PlayerId),
    Player2(PlayerId),
}

/// A room: two seats, each holding a player id or `NO_ID`, and the rule of its game.
#[derive(Debug, Clone, Copy, PartialEq, Eq, Structural)]
pub struct GameRoom {
    pub player1_id: PlayerId,
    pub player2_id: PlayerId,
    pub rule: GameRule,
}

impl GameRoom {
    /// The room as it is right after creation: both seats empty.
    pub open spec fn spec_new(rule: GameRule) -> GameRoom {
        GameRoom { player1_id: NO_ID, player2_id: NO_ID, rule }
    }

    pub open spec fn spec_is_full(self) -> bool {
        self.player1_id != NO_ID && self.player2_id != NO_ID
    }

    pub open spec fn spec_is_empty(self) -> bool {
        self.player1_id == NO_ID && self.player2_id == NO_ID
    }

    /// The room after `player` took the seat it names, whoever sat there before.
    pub open spec fn spec_add_player(self, player: PlayerOrder) -> GameRoom {
        match player {
            PlayerOrder::Player1(pid) => GameRoom { player1_id: pid, ..self },
            PlayerOrder::Player2(pid) => GameRoom { player2_id: pid, ..self },
        }
    }

    /// The room after `pid` left: the first seat that holds `pid` is emptied,
    /// seat one before seat two; a room that does not seat `pid` is unchanged.
    pub open spec fn spec_remove_player(self, pid: PlayerId) -> GameRoom {
        if self.player1_id == pid {
            GameRoom { player1_id: NO_ID, ..self }
        } else if self.player2_id == pid {
            GameRoom { player2_id: NO_ID, ..self }
        } else {
            self
        }
    }

    /// `pid` equals the content of one of the two seats.
    pub open spec fn seats(self, pid: PlayerId) -> bool {
        pid == self.player1_id || pid == self.player2_id
    }

    /// The number of seats that hold a player.
    pub open spec fn occupants(self) -> nat {
        let one: nat = if self.player1_id != NO_ID { 1 } else { 0 };
        let two: nat = if self.player2_id != NO_ID { 1 } else { 0 };
        one + two
    }

    pub fn new(rule: GameRule) -> (room: Self)
        ensures
            room == Self::spec_new(rule),
    {
        Self { player1_id: NO_ID, player2_id: NO_ID, rule }
    }

    pub fn is_full(&self) -> (full: bool)
        ensures
            full == self.spec_is_full(),
    {
        self.player1_id != NO_ID && self.player2_id != NO_ID
    }

    pub fn is_empty(&self) -> (empty: bool)
        ensures
            empty == self.spec_is_empty(),
    {
        self.player1_id == NO_ID && self.player2_id == NO_ID
    }

    pub fn add_player(&mut self, player: PlayerOrder)
        ensures
            *final(self) == old(self).spec_add_player(player),
    {
        match player {
            PlayerOrder::Player1(pid) => self.player1_id = pid,
            PlayerOrder::Player2(pid) => self.player2_id = pid,
        }
    }

    pub fn remove_player(&mut self, pid: PlayerId)
        ensures
            *final(self) == old(self).spec_remove_player(pid),
    {
        if self.player1_id == pid {
            self.player1_id = NO_ID;
        } else if self.player2_id == pid {
            self.player2_id = NO_ID;
        }
    }

    pub fn get_pids(&self) -> (pids: (PlayerId, PlayerId))
        ensures
            pids == (self.player1_id, self.player2_id),
    {
        (self.player1_id, self.player2_id)
    }

    pub fn get_rule(&self) -> (rule: GameRule)
        ensures
            rule == self.rule,
    {
        self.rule
    }
}

/// `rid` is the least id of a room in `rooms` that seats `pid`.
pub open spec fn is_first_room_of(rooms: Map<RoomId, GameRoom>, pid: PlayerId, rid: RoomId) -> bool {
    &&& rooms.contains_key(rid)
    &&& rooms[rid].seats(pid)
    &&& forall|r: RoomId| r < rid && rooms.contains_key(r) ==> !rooms[r].seats(pid)
}

/// No room in `rooms` seats `pid`.
pub open spec fn no_room_of(rooms: Map<RoomId, GameRoom>, pid: PlayerId) -> bool {
    forall|r: RoomId| rooms.contains_key(r) ==> !rooms[r].seats(pid)
}

/// The least id of a room that seats `pid`, if there is one.
pub open spec fn first_room_of(rooms: Map<RoomId, GameRoom>, pid: PlayerId) -> Option<RoomId> {
    if exists|rid: RoomId| is_first_room_of(rooms, pid, rid) {
        Some(choose|rid: RoomId| is_first_room_of(rooms, pid, rid))
    } else {
        None
    }
}

/// At most one id is the least one, so `first_room_of` is the id that
/// `is_first_room_of` describes, and it is `None` exactly when no room seats `pid`.
pub proof fn lemma_first_room_of(rooms: Map<RoomId, GameRoom>, pid: PlayerId, found: Option<RoomId>)
    requires
        match found {
            Some(rid) => is_first_room_of(rooms, pid, rid),
            None => no_room_of(rooms, pid),
        },
    ensures
        first_room_of(rooms, pid) == found,
{
    match found {
        Some(rid) => {
            let other = choose|r: RoomId| is_first_room_of(rooms, pid, r);
            assert(is_first_room_of(rooms, pid, other));
            assert(other == rid);
        },
        None => {
            assert forall|r: RoomId| !is_first_room_of(rooms, pid, r) by {}
        },
    }
}

/// Where a room seats `pid`, some room is the least one that does.
pub proof fn lemma_first_room_exists(rooms: Map<RoomId, GameRoom>, pid: PlayerId, rid: RoomId)
    requires
        rooms.contains_key(rid),
        rooms[rid].seats(pid),
    ensures
        first_room_of(rooms, pid) is Some,
    decreases rid - i32::MIN,
{
    if !is_first_room_of(rooms, pid, rid) {
        let lower = choose|r: RoomId| r < rid && rooms.contains_key(r) && rooms[r].seats(pid);
        lemma_first_room_exists(rooms, pid, lower);
    }
}

/// Where no room is the least one that seats `pid`, no room seats `pid`.
pub proof fn lemma_no_first_room(rooms: Map<RoomId, GameRoom>, pid: PlayerId)
    requires
        first_room_of(rooms, pid) is None,
    ensures
        no_room_of(rooms, pid),
{
    assert forall|r: RoomId| rooms.contains_key(r) implies !rooms[r].seats(pid) by {
        if rooms[r].seats(pid) {
            lemma_first_room_exists(rooms, pid, r);
        }
    }
}

/// The rooms of a server: at most `max_rooms` of them, each under an id from the pool.
pub struct RoomContainer {
    rooms_set: BTreeMap<RoomId, GameRoom>,
    max_rooms: usize,
    rid_pool: IdPool<i32>,
}

impl RoomContainer {
    /// Every room's id is positive and held by the pool.
    pub closed spec fn wf(self) -> bool {
        &&& forall|rid: RoomId| self.rooms_set@.contains_key(rid) ==> self.rid_pool.held().contains(rid as int)
        &&& forall|rid: RoomId| self.rooms_set@.contains_key(rid) ==> rid >= 1
    }

    /// The rooms by id.
    pub closed spec fn rooms(self) -> Map<RoomId, GameRoom> {
        self.rooms_set@
    }

    /// The ids that the pool holds.
    pub closed spec fn held_ids(self) -> Set<int> {
        self.rid_pool.held()
    }

    /// The number of rooms beyond which `add_room` fails.
    pub closed spec fn capacity(self) -> usize {
        self.max_rooms
    }

    /// A well-formed container keeps every room under a positive id that its pool holds.
    pub proof fn lemma_wf(self)
        requires
            self.wf(),
        ensures
            self.rooms().dom().finite(),
            forall|rid: RoomId| self.rooms().contains_key(rid) ==> self.held_ids().contains(rid as int),
            forall|rid: RoomId| self.rooms().contains_key(rid) ==> rid >= 1,
    {
    }

    /// An empty container over `rid_pool`, whatever that pool already holds.
    pub fn new(max_rooms: usize, rid_pool: IdPool<i32>) -> (container: Self)
        ensures
            container.wf(),
            container.rooms() == Map::<RoomId, GameRoom>::empty(),
            container.held_ids() == rid_pool.held(),
            container.capacity() == max_rooms,
    {
        Self { rooms_set: BTreeMap::new(), max_rooms, rid_pool }
    }

    /// Creates an empty room under the least free id. Fails with `NO_ID`, changing
    /// nothing, when the container is at capacity or the pool has no id left.
    pub fn add_room(&mut self, rule: GameRule) -> (rid: RoomId)
        requires
            old(self).wf(),
        ensures
            final(self).wf(),
            final(self).capacity() == old(self).capacity(),
            rid == NO_ID <==> (old(self).rooms().len() >= old(self).capacity()
                || all_held_up_to(old(self).held_ids(), i32::MAX as int)),
            rid == NO_ID ==> final(self).rooms() == old(self).rooms()
                && final(self).held_ids() == old(self).held_ids(),
            rid != NO_ID ==> {
                &&& is_smallest_free(old(self).held_ids(), rid as int)
                &&& !old(self).rooms().contains_key(rid)
                &&& final(self).rooms() == old(self).rooms().insert(rid, GameRoom::spec_new(rule))
                &&& final(self).held_ids() == old(self).held_ids().insert(rid as int)
            },
    {
        if self.rooms_set.len() >= self.max_rooms {
            return NO_ID;
        }
        let new_rid = self.rid_pool.alloc_id();
        if new_rid == NO_ID {
            return NO_ID;
        }
        let new_room = GameRoom::new(rule);
        self.rooms_set.insert(new_rid, new_room);
        new_rid
    }

    /// Removes the room `rid`, if there is one, and releases the id in any case.
    pub fn remove_room(&mut self, rid: RoomId)
        requires
            old(self).wf(),
        ensures
            final(self).wf(),
            final(self).capacity() == old(self).capacity(),
            final(self).rooms() == old(self).rooms().remove(rid),
            final(self).held_ids() == old(self).held_ids().remove(rid as int),
    {
        self.rooms_set.remove(&rid);
        self.rid_pool.dealloc_id(rid);
    }

    /// Seats a player in the room `rid`. Returns whether that room exists.
    pub fn add_player_to_room(&mut self, rid: RoomId, player: PlayerOrder) -> (done: bool)
        requires
            old(self).wf(),
        ensures
            final(self).wf(),
            final(self).capacity() == old(self).capacity(),
            final(self).held_ids() == old(self).held_ids(),
            done == old(self).rooms().contains_key(rid),
            done ==> final(self).rooms() == old(self).rooms().insert(
                rid,
                old(self).rooms()[rid].spec_add_player(player),
            ),
            !done ==> final(self).rooms() == old(self).rooms(),
    {
        match self.rooms_set.remove(&rid) {
            Some(room) => {
                let mut room = room;
                room.add_player(player);
                self.rooms_set.insert(rid, room);
                assert(self.rooms_set@ =~= old(self).rooms_set@.insert(
                    rid,
                    old(self).rooms_set@[rid].spec_add_player(player),
                ));
                true
            },
            None => {
                assert(self.rooms_set@ =~= old(self).rooms_set@);
                false
            },
        }
    }

    /// Takes `pid` out of the room `rid`. Returns whether that room exists.
    pub fn remove_player_from_room(&mut self, rid: RoomId, pid: PlayerId) -> (done: bool)
        requires
            old(self).wf(),
        ensures
            final(self).wf(),
            final(self).capacity() == old(self).capacity(),
            final(self).held_ids() == old(self).held_ids(),
            done == old(self).rooms().contains_key(rid),
            done ==> final(self).rooms() == old(self).rooms().insert(
                rid,
                old(self).rooms()[rid].spec_remove_player(pid),
            ),
            !done ==> final(self).rooms() == old(self).rooms(),
    {
        match self.rooms_set.remove(&rid) {
            Some(room) => {
                let mut room = room;
                room.remove_player(pid);
                self.rooms_set.insert(rid, room);
                assert(self.rooms_set@ =~= old(self).rooms_set@.insert(
                    rid,
                    old(self).rooms_set@[rid].spec_remove_player(pid),
                ));
                true
            },
            None => {
                assert(self.rooms_set@ =~= old(self).rooms_set@);
                false
            },
        }
    }

    pub fn get_pids_in_room(&self, rid: RoomId) -> (pids: Option<(PlayerId, PlayerId)>)
        ensures
            pids == if self.rooms().contains_key(rid) {
                Some((self.rooms()[rid].player1_id, self.rooms()[rid].player2_id))
            } else {
                None
            },
    {
        match self.rooms_set.get(&rid) {
            Some(room) => Some(room.get_pids()),
            None => None,
        }
    }

    pub fn get_rule_in_room(&self, rid: RoomId) -> (rule: Option<GameRule>)
        ensures
            rule == if self.rooms().contains_key(rid) {
                Some(self.rooms()[rid].rule)
            } else {
                None
            },
    {
        match self.rooms_set.get(&rid) {
            Some(room) => Some(room.get_rule()),
            None => None,
        }
    }

    /// Whether the room `rid` exists and both its seats are taken.
    pub fn room_full(&self, rid: RoomId) -> (full: bool)
        ensures
            full == (self.rooms().contains_key(rid) && self.rooms()[rid].spec_is_full()),
    {
        match self.rooms_set.get(&rid) {
            Some(room) => room.is_full(),
            None => false,
        }
    }

    /// Whether the room `rid` exists and both its seats are empty.
    pub fn room_empty(&self, rid: RoomId) -> (empty: bool)
        ensures
            empty == (self.rooms().contains_key(rid) && self.rooms()[rid].spec_is_empty()),
    {
        match self.rooms_set.get(&rid) {
            Some(room) => room.is_empty(),
            None => false,
        }
    }

    pub fn room_exist(&self, rid: RoomId) -> (exists: bool)
        ensures
            exists == self.rooms().contains_key(rid),
    {
        self.rooms_set.contains_key(&rid)
    }

    /// The least id of a room one of whose seats holds `pid`.
    pub fn find_room_contain_player(&self, pid: PlayerId) -> (found: Option<RoomId>)
        ensures
            found == first_room_of(self.rooms(), pid),
            match found {
                Some(rid) => is_first_room_of(self.rooms(), pid, rid),
                None => no_room_of(self.rooms(), pid),
            },
    {
        let mut best: Option<RoomId> = None;
        let ghost keys: Seq<RoomId> = self.rooms_set.keys().remaining().unref();
        let ghost rooms = self.rooms_set@;
        for k in it: self.rooms_set.keys()
            invariant
                rooms == self.rooms_set@,
                it.seq().unref() == keys,
                keys.to_set() == rooms.dom(),
                best matches Some(b) ==> rooms.contains_key(b) && rooms[b].seats(pid)
                    && forall|i: int| 0 <= i < it.index() && rooms[keys[i]].seats(pid) ==> b <= keys[i],
                best is None ==> forall|i: int| 0 <= i < it.index() ==> !rooms[keys[i]].seats(pid),
        {
            assert(*k == keys[it.index() as int]);
            assert(keys.to_set().contains(*k));
            match self.rooms_set.get(k) {
                Some(room) => {
                    let (pid1, pid2) = room.get_pids();
                    if pid == pid1 || pid == pid2 {
                        match best {
                            Some(b) => {
                                if *k < b {
                                    best = Some(*k);
                                }
                            },
                            None => {
                                best = Some(*k);
                            },
                        }
                    }
                },
                None => {},
            }
        }
        proof {
            assert forall|r: RoomId| rooms.contains_key(r) implies (best is None ==> !rooms[r].seats(pid))
                && (best matches Some(b) ==> (rooms[r].seats(pid) ==> b <= r)) by {
                assert(keys.to_set().contains(r));
                let i = choose|i: int| 0 <= i < keys.len() && keys[i] == r;
            }
            lemma_first_room_of(rooms, pid, best);
        }
        best
    }
}

} // verus!
