//! The players of a server: their lifecycle state, their liveness mark, and the
//! messages that wait to be sent to them.

use std::collections::BTreeMap;
use vstd::prelude::*;
use vstd::std_specs::btree::*;
use crate::caro_protocol::{
    ConnectState, GeneralResponse, GenericCodeView, MessagePacket, PlayerId, PlayerState, ServerCode,
    ServerCodeView,
};
use crate::id_pool::{IdPool, NO_ID, is_smallest_free, all_held_up_to};

verus! {

broadcast use group_btree_axioms;

/// A player: the lifecycle state and whether the latest liveness probe was answered.
#[derive(Debug, Clone, Copy, PartialEq, Eq, Structural)]
pub struct Player {
    pub state: PlayerState,
    pub responsed_to_checkalive: bool,
}

/// `state` with its connection part replaced by `connection`.
pub open spec fn with_connection(state: PlayerState, connection: ConnectState) -> PlayerState {
    match state {
        PlayerState::Logged(_) => PlayerState::Logged(connection),
        PlayerState::InRoom(_) => PlayerState::InRoom(connection),
        PlayerState::InGame(_) => PlayerState::InGame(connection),
    }
}

/// The connection part of `state`.
pub open spec fn connection_of(state: PlayerState) -> ConnectState {
    match state {
        PlayerState::Logged(connection) => connection,
        PlayerState::InRoom(connection) => connection,
        PlayerState::InGame(connection) => connection,
    }
}

impl Player {
    /// A player right after the connection was accepted.
    pub open spec fn spec_new() -> Player {
        Player { state: PlayerState::Logged(ConnectState::Connected), responsed_to_checkalive: false }
    }

    pub fn new() -> (player: Self)
        ensures
            player == Self::spec_new(),
    {
        Self { state: PlayerState::Logged(ConnectState::Connected), responsed_to_checkalive: false }
    }

    pub fn set_state(&mut self, state: PlayerState)
        ensures
            *final(self) == (Player { state, ..*old(self) }),
    {
        self.state = state;
    }

    pub fn get_state(&self) -> (state: PlayerState)
        ensures
            state == self.state,
    {
        self.state
    }

    pub fn mark_as_responsed_to_checkalive(&mut self)
        ensures
            *final(self) == (Player { responsed_to_checkalive: true, ..*old(self) }),
    {
        self.responsed_to_checkalive = true;
    }

    pub fn is_responsed_to_checkalive(&self) -> (marked: bool)
        ensures
            marked == self.responsed_to_checkalive,
    {
        self.responsed_to_checkalive
    }
}

/// A message on its way: the player it is for and what it says.
pub type Delivery = (PlayerId, GenericCodeView);

/// The messages of `queue` with their receivers, in order.
pub open spec fn deliveries(queue: Seq<(PlayerId, MessagePacket)>) -> Seq<Delivery> {
    Seq::new(queue.len(), |i: int| (queue[i].0, queue[i].1@))
}

/// The messages of `pending` that are for `pid`, in the order in which they were queued.
pub open spec fn received_by(pending: Seq<Delivery>, pid: PlayerId) -> Seq<GenericCodeView> {
    pending.filter(|d: Delivery| d.0 == pid).map_values(|d: Delivery| d.1)
}

/// The players of a server: at most `max_player` of them, each under an id from
/// the pool, and one queue of messages that wait to be sent.
pub struct PlayerContainer {
    players_map: BTreeMap<PlayerId, Player>,
    max_player: usize,
    pid_pool: IdPool<i32>,
    pending: Vec<(PlayerId, MessagePacket)>,
}

impl PlayerContainer {
    /// Every player's id is positive and held by the pool.
    pub closed spec fn wf(self) -> bool {
        &&& forall|pid: PlayerId| self.players_map@.contains_key(pid) ==> self.pid_pool.held().contains(pid as int)
        &&& forall|pid: PlayerId| self.players_map@.contains_key(pid) ==> pid >= 1
    }

    /// The players by id.
    pub closed spec fn players(self) -> Map<PlayerId, Player> {
        self.players_map@
    }

    /// The ids that the pool holds.
    pub closed spec fn held_ids(self) -> Set<int> {
        self.pid_pool.held()
    }

    /// The number of players beyond which `add_player` fails.
    pub closed spec fn capacity(self) -> usize {
        self.max_player
    }

    /// The messages that wait to be sent, oldest first.
    pub closed spec fn pending(self) -> Seq<Delivery> {
        deliveries(self.pending@)
    }

    /// A well-formed container keeps every player under a positive id that its pool holds.
    pub proof fn lemma_wf(self)
        requires
            self.wf(),
        ensures
            self.players().dom().finite(),
            forall|pid: PlayerId| self.players().contains_key(pid) ==> self.held_ids().contains(pid as int),
            forall|pid: PlayerId| self.players().contains_key(pid) ==> pid >= 1,
    {
    }

    /// An empty container over `pid_pool`, whatever that pool already holds.
    pub fn new(max_player: usize, pid_pool: IdPool<i32>) -> (container: Self)
        ensures
            container.wf(),
            container.players() == Map::<PlayerId, Player>::empty(),
            container.held_ids() == pid_pool.held(),
            container.capacity() == max_player,
            container.pending() == Seq::<Delivery>::empty(),
    {
        let container = Self { players_map: BTreeMap::new(), max_player, pid_pool, pending: Vec::new() };
        assert(container.pending() =~= Seq::<Delivery>::empty());
        container
    }

    /// Registers a player under the least free id, logged in and connected.
    /// Fails with `NO_ID`, changing nothing, when the container is at capacity
    /// or the pool has no id left.
    pub fn add_player(&mut self) -> (pid: PlayerId)
        requires
            old(self).wf(),
        ensures
            final(self).wf(),
            final(self).capacity() == old(self).capacity(),
            final(self).pending() == old(self).pending(),
            pid == NO_ID <==> (old(self).players().len() >= old(self).capacity()
                || all_held_up_to(old(self).held_ids(), i32::MAX as int)),
            pid == NO_ID ==> final(self).players() == old(self).players()
                && final(self).held_ids() == old(self).held_ids(),
            pid != NO_ID ==> {
                &&& is_smallest_free(old(self).held_ids(), pid as int)
                &&& !old(self).players().contains_key(pid)
                &&& final(self).players() == old(self).players().insert(pid, Player::spec_new())
                &&& final(self).held_ids() == old(self).held_ids().insert(pid as int)
            },
    {
        if self.players_map.len() >= self.max_player {
            return NO_ID;
        }
        let pid = self.pid_pool.alloc_id();
        if pid == NO_ID {
            return NO_ID;
        }
        let new_player = Player::new();
        self.players_map.insert(pid, new_player);
        pid
    }

    /// Removes the player `pid`, if there is one, and releases the id in any case.
    /// Messages that wait for that player stay in the queue.
    pub fn remove_player(&mut self, pid: PlayerId)
        requires
            old(self).wf(),
        ensures
            final(self).wf(),
            final(self).capacity() == old(self).capacity(),
            final(self).pending() == old(self).pending(),
            final(self).players() == old(self).players().remove(pid),
            final(self).held_ids() == old(self).held_ids().remove(pid as int),
    {
        self.players_map.remove(&pid);
        self.pid_pool.dealloc_id(pid);
    }

    /// Sets the state of the player `pid`. An unknown player changes nothing.
    pub fn set_player_state(&mut self, pid: PlayerId, state: PlayerState)
        requires
            old(self).wf(),
        ensures
            final(self).wf(),
            final(self).capacity() == old(self).capacity(),
            final(self).pending() == old(self).pending(),
            final(self).held_ids() == old(self).held_ids(),
            final(self).players() == if old(self).players().contains_key(pid) {
                old(self).players().insert(pid, Player { state, ..old(self).players()[pid] })
            } else {
                old(self).players()
            },
    {
        match self.players_map.remove(&pid) {
            Some(player) => {
                let mut player = player;
                player.set_state(state);
                self.players_map.insert(pid, player);
                assert(self.players_map@ =~= old(self).players_map@.insert(
                    pid,
                    Player { state, ..old(self).players_map@[pid] },
                ));
            },
            None => {
                assert(self.players_map@ =~= old(self).players_map@);
            },
        }
    }

    pub fn get_player_state(&self, pid: PlayerId) -> (state: Option<PlayerState>)
        ensures
            state == if self.players().contains_key(pid) {
                Some(self.players()[pid].state)
            } else {
                None
            },
    {
        match self.players_map.get(&pid) {
            Some(player) => Some(player.get_state()),
            None => None,
        }
    }

    /// Replaces the connection part of the state of `pid`, keeping the phase.
    /// An unknown player changes nothing.
    pub fn set_connection_state(&mut self, pid: PlayerId, connection: ConnectState)
        requires
            old(self).wf(),
        ensures
            final(self).wf(),
            final(self).capacity() == old(self).capacity(),
            final(self).pending() == old(self).pending(),
            final(self).held_ids() == old(self).held_ids(),
            final(self).players() == if old(self).players().contains_key(pid) {
                old(self).players().insert(
                    pid,
                    Player {
                        state: with_connection(old(self).players()[pid].state, connection),
                        ..old(self).players()[pid]
                    },
                )
            } else {
                old(self).players()
            },
    {
        match self.get_player_state(pid) {
            Some(state) => {
                let next = match state {
                    PlayerState::Logged(_) => PlayerState::Logged(connection),
                    PlayerState::InRoom(_) => PlayerState::InRoom(connection),
                    PlayerState::InGame(_) => PlayerState::InGame(connection),
                };
                self.set_player_state(pid, next);
            },
            None => {},
        }
    }

    /// Queues `message` for the player `pid`. A message for an unknown player is dropped.
    pub fn response(&mut self, pid: PlayerId, message: MessagePacket)
        requires
            old(self).wf(),
        ensures
            final(self).wf(),
            final(self).capacity() == old(self).capacity(),
            final(self).held_ids() == old(self).held_ids(),
            final(self).players() == old(self).players(),
            final(self).pending() == if old(self).players().contains_key(pid) {
                old(self).pending().push((pid, message@))
            } else {
                old(self).pending()
            },
    {
        if self.players_map.contains_key(&pid) {
            self.pending.push((pid, message));
            assert(self.pending() =~= old(self).pending().push((pid, message@)));
        }
    }

    /// Hands out the messages that wait to be sent, oldest first, and empties the queue.
    pub fn take_pending(&mut self) -> (batch: Vec<(PlayerId, MessagePacket)>)
        requires
            old(self).wf(),
        ensures
            final(self).wf(),
            final(self).capacity() == old(self).capacity(),
            final(self).held_ids() == old(self).held_ids(),
            final(self).players() == old(self).players(),
            deliveries(batch@) == old(self).pending(),
            final(self).pending() == Seq::<Delivery>::empty(),
    {
        let mut batch: Vec<(PlayerId, MessagePacket)> = Vec::new();
        std::mem::swap(&mut self.pending, &mut batch);
        assert(self.pending() =~= Seq::<Delivery>::empty());
        batch
    }

    pub fn player_exist(&self, pid: PlayerId) -> (exists: bool)
        ensures
            exists == self.players().contains_key(pid),
    {
        self.players_map.contains_key(&pid)
    }

    /// Clears the liveness mark of `pid` and queues the probe for that player.
    /// Returns whether the player exists.
    pub fn send_checkalive_message(&mut self, pid: PlayerId) -> (sent: bool)
        requires
            old(self).wf(),
        ensures
            final(self).wf(),
            final(self).capacity() == old(self).capacity(),
            final(self).held_ids() == old(self).held_ids(),
            sent == old(self).players().contains_key(pid),
            sent ==> final(self).players() == old(self).players().insert(
                pid,
                Player { responsed_to_checkalive: false, ..old(self).players()[pid] },
            ) && final(self).pending() == old(self).pending().push(
                (pid, GenericCodeView::Server(ServerCodeView::General(GeneralResponse::AreYouAlive))),
            ),
            !sent ==> final(self).players() == old(self).players() && final(self).pending() == old(
                self,
            ).pending(),
    {
        match self.players_map.remove(&pid) {
            Some(player) => {
                let mut player = player;
                player.responsed_to_checkalive = false;
                self.players_map.insert(pid, player);
                assert(self.players_map@ =~= old(self).players_map@.insert(
                    pid,
                    Player { responsed_to_checkalive: false, ..old(self).players_map@[pid] },
                ));
                let code = ServerCode::General(GeneralResponse::AreYouAlive);
                let new_packet = MessagePacket::new_server_packet(code);
                self.response(pid, new_packet);
                true
            },
            None => {
                assert(self.players_map@ =~= old(self).players_map@);
                false
            },
        }
    }

    /// Records that `pid` answered the liveness probe. An unknown player changes nothing.
    pub fn mark_as_responsed_to_checkalive(&mut self, pid: PlayerId)
        requires
            old(self).wf(),
        ensures
            final(self).wf(),
            final(self).capacity() == old(self).capacity(),
            final(self).pending() == old(self).pending(),
            final(self).held_ids() == old(self).held_ids(),
            final(self).players() == if old(self).players().contains_key(pid) {
                old(self).players().insert(
                    pid,
                    Player { responsed_to_checkalive: true, ..old(self).players()[pid] },
                )
            } else {
                old(self).players()
            },
    {
        match self.players_map.remove(&pid) {
            Some(player) => {
                let mut player = player;
                player.mark_as_responsed_to_checkalive();
                self.players_map.insert(pid, player);
                assert(self.players_map@ =~= old(self).players_map@.insert(
                    pid,
                    Player { responsed_to_checkalive: true, ..old(self).players_map@[pid] },
                ));
            },
            None => {
                assert(self.players_map@ =~= old(self).players_map@);
            },
        }
    }

    /// Whether `pid` exists and has answered the latest liveness probe.
    pub fn is_responsed_to_checkalive(&self, pid: PlayerId) -> (marked: bool)
        ensures
            marked == (self.players().contains_key(pid) && self.players()[pid].responsed_to_checkalive),
    {
        match self.players_map.get(&pid) {
            Some(player) => player.is_responsed_to_checkalive(),
            None => false,
        }
    }
}

} // verus!
