//! The server as a mathematical value, and what each request does to it.
//!
//! The registries of players, rooms and games refer to each other by id. The
//! functions here say, for a server in any state, which state follows a
//! request and which messages are queued by it.

use vstd::prelude::*;
use crate::caro_protocol::{
    ConnectState, GameContextView, GameId, GameRule, GeneralRequest, GeneralResponse, GenericCodeView,
    InGameRequest, InGameResponseView, InRoomRequest, InRoomResponse, LoggedRequest, LoggedResponse,
    PlayerCode, PlayerId, PlayerState, RoomId, ServerCodeView,
};
use crate::caro_protocol;
use crate::game_manager;
use crate::game_manager::{GameModel, first_game_of};
use crate::id_pool::{NO_ID, next_id};
use crate::player_manager::{Delivery, Player};
use crate::room_manager::{GameRoom, PlayerOrder, first_room_of};

verus! {

/// The connection state that a game's snapshot shows for the player in a
/// seat: the one of its in-game state, and `Disconnected` for an empty seat,
/// an unknown player or a player that is not in a game.
pub open spec fn connection_in_game(players: Map<PlayerId, Player>, pid: PlayerId) -> ConnectState {
    if players.contains_key(pid) {
        match players[pid].state {
            PlayerState::InGame(connection) => connection,
            _ => ConnectState::Disconnected,
        }
    } else {
        ConnectState::Disconnected
    }
}

/// The three registries and the queue of outgoing messages.
pub struct ServerModel {
    pub players: Map<PlayerId, Player>,
    pub player_ids: Set<int>,
    pub max_players: usize,
    pub pending: Seq<Delivery>,
    pub rooms: Map<RoomId, GameRoom>,
    pub room_ids: Set<int>,
    pub max_rooms: usize,
    pub games: Map<GameId, GameModel>,
    pub game_ids: Set<int>,
    pub max_games: usize,
}

impl ServerModel {
    /// Every entry of a registry stands under a positive id that the registry's
    /// pool holds, the registries are finite, and every game's board is well formed.
    pub open spec fn wf(self) -> bool {
        &&& self.players.dom().finite()
        &&& self.rooms.dom().finite()
        &&& self.games.dom().finite()
        &&& forall|pid: PlayerId| self.players.contains_key(pid) ==> self.player_ids.contains(pid as int)
        &&& forall|rid: RoomId| self.rooms.contains_key(rid) ==> self.room_ids.contains(rid as int)
        &&& forall|gid: GameId| self.games.contains_key(gid) ==> self.game_ids.contains(gid as int)
        &&& forall|pid: PlayerId| self.players.contains_key(pid) ==> pid >= 1
        &&& forall|rid: RoomId| self.rooms.contains_key(rid) ==> rid >= 1
        &&& forall|gid: GameId| self.games.contains_key(gid) ==> gid >= 1
        &&& forall|gid: GameId| self.games.contains_key(gid) ==> (#[trigger] self.games[gid]).wf()
    }

    /// A message for `pid` joins the queue; one for an unknown player is dropped.
    pub open spec fn respond(self, pid: PlayerId, code: ServerCodeView) -> ServerModel {
        if self.players.contains_key(pid) {
            ServerModel { pending: self.pending.push((pid, GenericCodeView::Server(code))), ..self }
        } else {
            self
        }
    }

    /// The state of `pid` is set; an unknown player changes nothing.
    pub open spec fn with_state(self, pid: PlayerId, state: PlayerState) -> ServerModel {
        if self.players.contains_key(pid) {
            ServerModel { players: self.players.insert(pid, Player { state, ..self.players[pid] }), ..self }
        } else {
            self
        }
    }

    /// `pid` has answered the liveness probe; an unknown player changes nothing.
    pub open spec fn marked_alive(self, pid: PlayerId) -> ServerModel {
        if self.players.contains_key(pid) {
            ServerModel {
                players: self.players.insert(
                    pid,
                    Player { responsed_to_checkalive: true, ..self.players[pid] },
                ),
                ..self
            }
        } else {
            self
        }
    }

    /// `pid` is removed and its id released.
    pub open spec fn without_player(self, pid: PlayerId) -> ServerModel {
        ServerModel {
            players: self.players.remove(pid),
            player_ids: self.player_ids.remove(pid as int),
            ..self
        }
    }

    /// The id that the next room gets, or `NO_ID` if none can be created.
    pub open spec fn next_room_id(self) -> RoomId {
        next_id(self.room_ids, self.rooms.len(), self.max_rooms) as RoomId
    }

    /// An empty room with `rule` stands under the next room id, if there is one.
    pub open spec fn with_new_room(self, rule: GameRule) -> ServerModel {
        let rid = self.next_room_id();
        if rid == NO_ID {
            self
        } else {
            ServerModel {
                rooms: self.rooms.insert(rid, GameRoom::spec_new(rule)),
                room_ids: self.room_ids.insert(rid as int),
                ..self
            }
        }
    }

    /// `player` sits in the seat it names of the room `rid`, if that room exists.
    pub open spec fn seated(self, rid: RoomId, player: PlayerOrder) -> ServerModel {
        if self.rooms.contains_key(rid) {
            ServerModel { rooms: self.rooms.insert(rid, self.rooms[rid].spec_add_player(player)), ..self }
        } else {
            self
        }
    }

    /// `pid` has left its seat in the room `rid`, if that room exists.
    pub open spec fn unseated(self, rid: RoomId, pid: PlayerId) -> ServerModel {
        if self.rooms.contains_key(rid) {
            ServerModel { rooms: self.rooms.insert(rid, self.rooms[rid].spec_remove_player(pid)), ..self }
        } else {
            self
        }
    }

    /// The room `rid` is removed and its id released.
    pub open spec fn without_room(self, rid: RoomId) -> ServerModel {
        ServerModel { rooms: self.rooms.remove(rid), room_ids: self.room_ids.remove(rid as int), ..self }
    }

    /// The id that the next game gets, or `NO_ID` if none can be created.
    pub open spec fn next_game_id(self) -> GameId {
        next_id(self.game_ids, self.games.len(), self.max_games) as GameId
    }

    /// A new game for the room `rid` stands under the next game id, if there is one.
    pub open spec fn with_new_game(self, rid: RoomId, rule: GameRule) -> ServerModel {
        let gid = self.next_game_id();
        if gid == NO_ID {
            self
        } else {
            ServerModel {
                games: self.games.insert(gid, GameModel::created(rid, rule)),
                game_ids: self.game_ids.insert(gid as int),
                ..self
            }
        }
    }

    /// The game `gid` is removed and its id released.
    pub open spec fn without_game(self, gid: GameId) -> ServerModel {
        ServerModel { games: self.games.remove(gid), game_ids: self.game_ids.remove(gid as int), ..self }
    }

    /// The game `gid` has started, if it exists and was pending.
    pub open spec fn with_started_game(self, gid: GameId) -> ServerModel {
        if self.games.contains_key(gid) {
            ServerModel { games: self.games.insert(gid, self.games[gid].after_try_start()), ..self }
        } else {
            self
        }
    }

    /// The game `gid`, if it exists, has got `code` from the player in seat `order`.
    pub open spec fn with_command(self, gid: GameId, order: game_manager::PlayerOrder, code: PlayerCode) -> ServerModel {
        if self.games.contains_key(gid) {
            ServerModel { games: self.games.insert(gid, self.games[gid].after_command(order, code)), ..self }
        } else {
            self
        }
    }

    /// The snapshot that `pid` receives: of the game of the room that seats
    /// `pid`, with both occupants' connection states, and marked with the seat
    /// of `pid`. There is none if no room seats `pid` or that room has no game.
    pub open spec fn context_for(self, pid: PlayerId) -> Option<GameContextView> {
        match first_room_of(self.rooms, pid) {
            None => None,
            Some(rid) => match first_game_of(self.games, rid) {
                None => None,
                Some(gid) => {
                    let room = self.rooms[rid];
                    let context = self.games[gid].context();
                    Some(
                        GameContextView {
                            board_height: context.board_height,
                            board_width: context.board_width,
                            player1_move_history: context.player1_move_history,
                            player2_move_history: context.player2_move_history,
                            player1_undone_moves: context.player1_undone_moves,
                            player2_undone_moves: context.player2_undone_moves,
                            game_state: context.game_state,
                            player1_connection_state: connection_in_game(self.players, room.player1_id),
                            player2_connection_state: connection_in_game(self.players, room.player2_id),
                            receiver_order: if pid == room.player1_id {
                                caro_protocol::PlayerOrder::Player1
                            } else {
                                caro_protocol::PlayerOrder::Player2
                            },
                        },
                    )
                },
            },
        }
    }

    /// The server after the snapshot for `pid` was queued, if there is one.
    pub open spec fn after_response_context(self, pid: PlayerId) -> ServerModel {
        match self.context_for(pid) {
            Some(context) => self.respond(pid, ServerCodeView::InGame(InGameResponseView::Context(context))),
            None => self,
        }
    }

    /// The server after the room `rid` became full: the room's game is started
    /// if it is pending, both occupants are told, seat one first, and both are
    /// in a game from then on.
    pub open spec fn after_room_full(self, rid: RoomId) -> ServerModel {
        let started = match first_game_of(self.games, rid) {
            Some(gid) => self.with_started_game(gid),
            None => self,
        };
        if started.rooms.contains_key(rid) {
            let room = started.rooms[rid];
            let notice = ServerCodeView::InRoom(InRoomResponse::YourRoomIsFull(rid));
            started.respond(room.player1_id, notice).respond(room.player2_id, notice).with_state(
                room.player1_id,
                PlayerState::InGame(ConnectState::Connected),
            ).with_state(room.player2_id, PlayerState::InGame(ConnectState::Connected))
        } else {
            started
        }
    }

    /// The server after `pid` was torn down: taken out of the room that seats
    /// it; that room, if it is empty then, removed together with its game; and
    /// the player removed last.
    pub open spec fn after_clean(self, pid: PlayerId) -> ServerModel {
        let detached = match first_room_of(self.rooms, pid) {
            None => self,
            Some(rid) => {
                let left = self.unseated(rid, pid);
                if left.rooms[rid].spec_is_empty() {
                    let unbound = match first_game_of(left.games, rid) {
                        Some(gid) => left.without_game(gid),
                        None => left,
                    };
                    unbound.without_room(rid)
                } else {
                    left
                }
            },
        };
        detached.without_player(pid)
    }

    /// The server after the part of a request that is handled in every state.
    pub open spec fn after_general(self, pid: PlayerId, code: PlayerCode) -> ServerModel {
        match code {
            PlayerCode::General(GeneralRequest::PlayerExitApplication) => self.after_clean(pid),
            PlayerCode::General(GeneralRequest::PlayerRequestState) => if self.players.contains_key(pid) {
                self.respond(pid, ServerCodeView::General(GeneralResponse::State(self.players[pid].state)))
            } else {
                self
            },
            PlayerCode::General(GeneralRequest::IAmAlive) => self.marked_alive(pid),
            _ => self,
        }
    }

    /// The seat that a player joining `room` takes: seat two if it is free,
    /// seat one otherwise.
    pub open spec fn seat_for(room: GameRoom, pid: PlayerId) -> PlayerOrder {
        if room.player2_id == NO_ID {
            PlayerOrder::Player2(pid)
        } else {
            PlayerOrder::Player1(pid)
        }
    }

    /// The answer to a player that was seated in `room`.
    pub open spec fn join_answer(room: GameRoom, rid: RoomId, pid: PlayerId) -> LoggedResponse {
        if pid == room.player1_id {
            LoggedResponse::JoinedRoomAsPlayer1(rid)
        } else if pid == room.player2_id {
            LoggedResponse::JoinedRoomAsPlayer2(rid)
        } else {
            LoggedResponse::FailedToJoinRoom(rid)
        }
    }

    /// The server after a request of a player that is logged in and in no room.
    ///
    /// Creating a room needs a free room id and a free game id; without either
    /// nothing is created and the answer is `FailedToCreateRoom`. Joining
    /// needs a room with a free seat; without it nothing changes and the
    /// answer is `FailedToJoinRoom`.
    pub open spec fn after_logged(self, pid: PlayerId, code: PlayerCode) -> ServerModel {
        match code {
            PlayerCode::Logged(LoggedRequest::RequestRoomAsPlayer1(rule)) => {
                let rid = self.next_room_id();
                if rid == NO_ID {
                    self.respond(pid, ServerCodeView::Logged(LoggedResponse::FailedToCreateRoom))
                } else {
                    let roomed = self.with_new_room(rule).seated(rid, PlayerOrder::Player1(pid));
                    if roomed.next_game_id() == NO_ID {
                        roomed.without_room(rid).respond(
                            pid,
                            ServerCodeView::Logged(LoggedResponse::FailedToCreateRoom),
                        )
                    } else {
                        let ready = roomed.with_new_game(rid, rule).with_state(
                            pid,
                            PlayerState::InRoom(ConnectState::Connected),
                        ).respond(pid, ServerCodeView::Logged(LoggedResponse::JoinedRoomAsPlayer1(rid)));
                        if ready.rooms[rid].spec_is_full() {
                            ready.after_room_full(rid)
                        } else {
                            ready
                        }
                    }
                }
            },
            PlayerCode::Logged(LoggedRequest::JoinRoom(rid)) => {
                if !self.rooms.contains_key(rid) || self.rooms[rid].spec_is_full() {
                    self.respond(pid, ServerCodeView::Logged(LoggedResponse::FailedToJoinRoom(rid)))
                } else {
                    let joined = self.seated(rid, Self::seat_for(self.rooms[rid], pid)).with_state(
                        pid,
                        PlayerState::InRoom(ConnectState::Connected),
                    );
                    let room = joined.rooms[rid];
                    let answered = joined.respond(
                        pid,
                        ServerCodeView::Logged(Self::join_answer(room, rid, pid)),
                    );
                    if room.spec_is_full() {
                        answered.after_room_full(rid)
                    } else {
                        answered
                    }
                }
            },
            _ => self,
        }
    }

    /// The server after a request of a player that waits in a room: on leaving,
    /// the seat is emptied, the room is removed if it is empty then (its game
    /// stays), and the player is logged in and in no room again.
    pub open spec fn after_in_room(self, pid: PlayerId, code: PlayerCode) -> ServerModel {
        match code {
            PlayerCode::InRoom(InRoomRequest::PlayerLeaveRoom) => {
                let left = match first_room_of(self.rooms, pid) {
                    None => self,
                    Some(rid) => {
                        let unseated = self.unseated(rid, pid);
                        if unseated.rooms[rid].spec_is_empty() {
                            unseated.without_room(rid)
                        } else {
                            unseated
                        }
                    },
                };
                left.with_state(pid, PlayerState::Logged(ConnectState::Connected))
            },
            _ => self,
        }
    }

    /// The seat of `pid` in `room`, seat one before seat two.
    pub open spec fn order_in(room: GameRoom, pid: PlayerId) -> Option<game_manager::PlayerOrder> {
        if pid == room.player1_id {
            Some(game_manager::PlayerOrder::Player1)
        } else if pid == room.player2_id {
            Some(game_manager::PlayerOrder::Player2)
        } else {
            None
        }
    }

    /// What every in-game request ends with: if `pid` still sits in the room
    /// `rid` and the game `gid` exists, the game gets the request and both
    /// occupants get a fresh snapshot, seat one first.
    pub open spec fn after_in_game_tail(self, pid: PlayerId, rid: RoomId, gid: GameId, code: PlayerCode) -> ServerModel {
        if !self.rooms.contains_key(rid) {
            self
        } else {
            let room = self.rooms[rid];
            match Self::order_in(room, pid) {
                None => self,
                Some(order) => if self.games.contains_key(gid) {
                    self.with_command(gid, order, code).after_response_context(
                        room.player1_id,
                    ).after_response_context(room.player2_id)
                } else {
                    self
                },
            }
        }
    }

    /// The server after a request of a player in a game. Nothing happens
    /// unless a room seats the player and that room has a game.
    pub open spec fn after_in_game(self, pid: PlayerId, code: PlayerCode) -> ServerModel {
        match code {
            PlayerCode::InGame(request) => match first_room_of(self.rooms, pid) {
                None => self,
                Some(rid) => match first_game_of(self.games, rid) {
                    None => self,
                    Some(gid) => {
                        let handled = match request {
                            InGameRequest::PlayerLeaveRoom => {
                                let unseated = self.unseated(rid, pid);
                                let left = if unseated.rooms[rid].spec_is_empty() {
                                    unseated.without_game(gid).without_room(rid)
                                } else {
                                    unseated
                                };
                                left.with_state(pid, PlayerState::Logged(ConnectState::Connected))
                            },
                            InGameRequest::PlayerRequestContext => self.after_response_context(pid),
                            _ => self,
                        };
                        handled.after_in_game_tail(pid, rid, gid, code)
                    },
                },
            },
            _ => self,
        }
    }

    /// The server after the request `code` of `pid`. A request of an unknown
    /// player changes nothing. Otherwise the general part is handled first, then
    /// the part for the phase in which the player was when the request arrived;
    /// a player that is not connected gets the general part only.
    pub open spec fn after_request(self, pid: PlayerId, code: PlayerCode) -> ServerModel {
        if !self.players.contains_key(pid) {
            self
        } else {
            let general = self.after_general(pid, code);
            match self.players[pid].state {
                PlayerState::Logged(ConnectState::Connected) => general.after_logged(pid, code),
                PlayerState::InRoom(ConnectState::Connected) => general.after_in_room(pid, code),
                PlayerState::InGame(ConnectState::Connected) => general.after_in_game(pid, code),
                _ => general,
            }
        }
    }
}

} // verus!
