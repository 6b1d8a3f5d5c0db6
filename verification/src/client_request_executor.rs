//! The request dispatcher: routes each request of a player to the handler for
//! the phase the player is in, changes the registries and queues the answers.

use vstd::prelude::*;
use crate::caro_protocol::{
    ConnectState, GameContext, GameId, GameRule, GeneralRequest, GeneralResponse, InGameRequest,
    InGameResponse, InRoomRequest, InRoomResponse, LoggedRequest, LoggedResponse, MessagePacket,
    PlayerCode, PlayerId, PlayerState, RoomId, ServerCode,
};
use crate::caro_protocol;
use crate::game_manager;
use crate::game_manager::GameContainer;
use crate::id_pool::{NO_ID, lemma_smallest_free_unique};
use crate::invariants::{
    consistent, law_clean_keeps_consistency, law_new_player_keeps_consistency,
    law_request_keeps_consistency, law_server_without_rooms_is_consistent, lemma_same_seating,
};
use crate::player_manager::PlayerContainer;
use crate::room_manager;
use crate::room_manager::RoomContainer;
use crate::server_model::ServerModel;

verus! {

/// The dispatcher with the three registries it works on.
pub struct RequestExecutor {
    player_manager: PlayerContainer,
    room_manager: RoomContainer,
    game_manager: GameContainer,
}

impl View for RequestExecutor {
    type V = ServerModel;

    closed spec fn view(&self) -> ServerModel {
        ServerModel {
            players: self.player_manager.players(),
            player_ids: self.player_manager.held_ids(),
            max_players: self.player_manager.capacity(),
            pending: self.player_manager.pending(),
            rooms: self.room_manager.rooms(),
            room_ids: self.room_manager.held_ids(),
            max_rooms: self.room_manager.capacity(),
            games: self.game_manager.games(),
            game_ids: self.game_manager.held_ids(),
            max_games: self.game_manager.capacity(),
        }
    }
}

impl RequestExecutor {
    /// The three registries are well formed.
    pub closed spec fn wf(&self) -> bool {
        &&& self.player_manager.wf()
        &&& self.room_manager.wf()
        &&& self.game_manager.wf()
    }

    /// A well-formed dispatcher stands for a well-formed server.
    pub proof fn lemma_wf(&self)
        requires
            self.wf(),
        ensures
            self@.wf(),
    {
        self.player_manager.lemma_wf();
        self.room_manager.lemma_wf();
        self.game_manager.lemma_wf();
    }

    pub fn new(player_manager: PlayerContainer, room_manager: RoomContainer, game_manager: GameContainer) -> (executor: Self)
        requires
            player_manager.wf(),
            room_manager.wf(),
            game_manager.wf(),
        ensures
            executor.wf(),
            executor@ == (ServerModel {
                players: player_manager.players(),
                player_ids: player_manager.held_ids(),
                max_players: player_manager.capacity(),
                pending: player_manager.pending(),
                rooms: room_manager.rooms(),
                room_ids: room_manager.held_ids(),
                max_rooms: room_manager.capacity(),
                games: game_manager.games(),
                game_ids: game_manager.held_ids(),
                max_games: game_manager.capacity(),
            }),
            player_manager.players() == Map::<PlayerId, crate::player_manager::Player>::empty()
                && room_manager.rooms() == Map::<RoomId, crate::room_manager::GameRoom>::empty()
                ==> consistent(executor@),
    {
        let executor = Self { player_manager, room_manager, game_manager };
        proof {
            if executor@.players == Map::<PlayerId, crate::player_manager::Player>::empty() && executor@.rooms
                == Map::<RoomId, crate::room_manager::GameRoom>::empty() {
                law_server_without_rooms_is_consistent(executor@);
            }
        }
        executor
    }

    /// The registry of players, to read from.
    pub fn player_manager(&self) -> (players: &PlayerContainer)
        ensures
            self.wf() ==> players.wf(),
            players.players() == self@.players,
            players.held_ids() == self@.player_ids,
            players.capacity() == self@.max_players,
            players.pending() == self@.pending,
    {
        &self.player_manager
    }

    /// The registry of rooms, to read from.
    pub fn room_manager(&self) -> (rooms: &RoomContainer)
        ensures
            self.wf() ==> rooms.wf(),
            rooms.rooms() == self@.rooms,
            rooms.held_ids() == self@.room_ids,
            rooms.capacity() == self@.max_rooms,
    {
        &self.room_manager
    }

    /// The registry of games, to read from.
    pub fn game_manager(&self) -> (games: &GameContainer)
        ensures
            self.wf() ==> games.wf(),
            games.games() == self@.games,
            games.held_ids() == self@.game_ids,
            games.capacity() == self@.max_games,
    {
        &self.game_manager
    }

    /// Registers the player of a new connection. See `PlayerContainer::add_player`.
    pub fn add_player(&mut self) -> (pid: PlayerId)
        requires
            old(self).wf(),
        ensures
            final(self).wf(),
            pid == crate::id_pool::next_id(
                old(self)@.player_ids,
                old(self)@.players.len(),
                old(self)@.max_players,
            ),
            pid == NO_ID ==> final(self)@ == old(self)@,
            pid != NO_ID ==> final(self)@ == (ServerModel {
                players: old(self)@.players.insert(pid, crate::player_manager::Player::spec_new()),
                player_ids: old(self)@.player_ids.insert(pid as int),
                ..old(self)@
            }),
            consistent(old(self)@) ==> consistent(final(self)@),
    {
        let pid = self.player_manager.add_player();
        proof {
            if pid != NO_ID {
                lemma_smallest_free_unique(old(self)@.player_ids, pid as int);
                if consistent(old(self)@) {
                    old(self).lemma_wf();
                    law_new_player_keeps_consistency(old(self)@, pid);
                }
            }
        }
        pid
    }

    /// Hands out the messages that wait to be sent, oldest first, and empties the queue.
    pub fn take_pending(&mut self) -> (batch: Vec<(PlayerId, MessagePacket)>)
        requires
            old(self).wf(),
        ensures
            final(self).wf(),
            crate::player_manager::deliveries(batch@) == old(self)@.pending,
            final(self)@ == (ServerModel { pending: Seq::empty(), ..old(self)@ }),
            consistent(old(self)@) ==> consistent(final(self)@),
    {
        self.player_manager.take_pending()
    }

    /// Queues a liveness probe for `pid` and clears the player's liveness mark.
    /// Returns whether the player exists.
    pub fn send_checkalive_message(&mut self, pid: PlayerId) -> (sent: bool)
        requires
            old(self).wf(),
        ensures
            final(self).wf(),
            sent == old(self)@.players.contains_key(pid),
            sent ==> final(self)@ == (ServerModel {
                players: old(self)@.players.insert(
                    pid,
                    crate::player_manager::Player {
                        responsed_to_checkalive: false,
                        ..old(self)@.players[pid]
                    },
                ),
                ..old(self)@
            }).respond(pid, crate::caro_protocol::ServerCodeView::General(GeneralResponse::AreYouAlive)),
            !sent ==> final(self)@ == old(self)@,
            consistent(old(self)@) ==> consistent(final(self)@),
    {
        let sent = self.player_manager.send_checkalive_message(pid);
        proof {
            if consistent(old(self)@) {
                assert(self@.players.dom() =~= old(self)@.players.dom());
                lemma_same_seating(old(self)@, self@);
            }
        }
        sent
    }

    /// Marks `pid` as connected or not, keeping the player's phase.
    pub fn set_connection_state(&mut self, pid: PlayerId, connection: ConnectState)
        requires
            old(self).wf(),
        ensures
            final(self).wf(),
            final(self)@ == if old(self)@.players.contains_key(pid) {
                old(self)@.with_state(
                    pid,
                    crate::player_manager::with_connection(old(self)@.players[pid].state, connection),
                )
            } else {
                old(self)@
            },
            consistent(old(self)@) ==> consistent(final(self)@),
    {
        self.player_manager.set_connection_state(pid, connection);
        proof {
            if consistent(old(self)@) {
                assert(self@.players.dom() =~= old(self)@.players.dom());
                lemma_same_seating(old(self)@, self@);
            }
        }
    }

    fn respond(&mut self, pid: PlayerId, code: ServerCode)
        requires
            old(self).wf(),
        ensures
            final(self).wf(),
            final(self)@ == old(self)@.respond(pid, code@),
    {
        let new_packet = MessagePacket::new_server_packet(code);
        self.player_manager.response(pid, new_packet);
    }

    fn set_state(&mut self, pid: PlayerId, state: PlayerState)
        requires
            old(self).wf(),
        ensures
            final(self).wf(),
            final(self)@ == old(self)@.with_state(pid, state),
    {
        self.player_manager.set_player_state(pid, state);
    }

    fn leave_seat(&mut self, rid: RoomId, pid: PlayerId)
        requires
            old(self).wf(),
        ensures
            final(self).wf(),
            final(self)@ == old(self)@.unseated(rid, pid),
    {
        self.room_manager.remove_player_from_room(rid, pid);
    }

    fn drop_room(&mut self, rid: RoomId)
        requires
            old(self).wf(),
        ensures
            final(self).wf(),
            final(self)@ == old(self)@.without_room(rid),
    {
        self.room_manager.remove_room(rid);
    }

    fn drop_game(&mut self, gid: GameId)
        requires
            old(self).wf(),
        ensures
            final(self).wf(),
            final(self)@ == old(self)@.without_game(gid),
    {
        self.game_manager.remove_game(gid);
    }

    /// Queues for `pid` the snapshot of the game of the room that seats `pid`.
    fn response_game_context(&mut self, pid: PlayerId)
        requires
            old(self).wf(),
        ensures
            final(self).wf(),
            final(self)@ == old(self)@.after_response_context(pid),
    {
        let rid = match self.room_manager.find_room_contain_player(pid) {
            Some(rid) => rid,
            None => {
                return ;
            },
        };
        let gid = match self.game_manager.find_game_contain_room(rid) {
            Some(gid) => gid,
            None => {
                return ;
            },
        };
        let (pid1, pid2) = match self.room_manager.get_pids_in_room(rid) {
            Some(pids) => pids,
            None => {
                return ;
            },
        };
        let internal_game_context = match self.game_manager.get_context_in_game(gid) {
            Some(context) => context,
            None => {
                return ;
            },
        };
        let player1_connection_state = match self.player_manager.get_player_state(pid1) {
            Some(PlayerState::InGame(conn_state)) => conn_state,
            _ => ConnectState::Disconnected,
        };
        let player2_connection_state = match self.player_manager.get_player_state(pid2) {
            Some(PlayerState::InGame(conn_state)) => conn_state,
            _ => ConnectState::Disconnected,
        };
        let receiver_order = if pid == pid1 {
            caro_protocol::PlayerOrder::Player1
        } else {
            caro_protocol::PlayerOrder::Player2
        };
        let game_context = GameContext {
            board_height: internal_game_context.board_height,
            board_width: internal_game_context.board_width,
            player1_move_history: internal_game_context.player1_move_history,
            player2_move_history: internal_game_context.player2_move_history,
            player1_undone_moves: internal_game_context.player1_undone_moves,
            player2_undone_moves: internal_game_context.player2_undone_moves,
            game_state: internal_game_context.game_state,
            player1_connection_state,
            player2_connection_state,
            receiver_order,
        };
        self.respond(pid, ServerCode::InGame(InGameResponse::Context(game_context)));
    }

    /// What follows when the room `rid` has become full.
    fn room_full_actions(&mut self, rid: RoomId)
        requires
            old(self).wf(),
        ensures
            final(self).wf(),
            final(self)@ == old(self)@.after_room_full(rid),
    {
        match self.game_manager.find_game_contain_room(rid) {
            Some(gid) => {
                self.game_manager.try_start_game(gid);
            },
            None => {},
        }
        let (pid1, pid2) = match self.room_manager.get_pids_in_room(rid) {
            Some(pids) => pids,
            None => {
                return ;
            },
        };
        self.respond(pid1, ServerCode::InRoom(InRoomResponse::YourRoomIsFull(rid)));
        self.respond(pid2, ServerCode::InRoom(InRoomResponse::YourRoomIsFull(rid)));
        self.set_state(pid1, PlayerState::InGame(ConnectState::Connected));
        self.set_state(pid2, PlayerState::InGame(ConnectState::Connected));
    }

    /// Tears the player `pid` down: out of its room, the room and its game
    /// removed if the room is empty then, and the player removed last. A player
    /// that is unknown or in no room is no error.
    pub fn clean_player_existence(&mut self, pid: PlayerId)
        requires
            old(self).wf(),
        ensures
            final(self).wf(),
            final(self)@ == old(self)@.after_clean(pid),
            consistent(old(self)@) ==> consistent(final(self)@),
    {
        proof {
            if consistent(old(self)@) {
                old(self).lemma_wf();
                law_clean_keeps_consistency(old(self)@, pid);
            }
        }
        match self.room_manager.find_room_contain_player(pid) {
            Some(rid) => {
                self.leave_seat(rid, pid);
                if self.room_manager.room_empty(rid) {
                    match self.game_manager.find_game_contain_room(rid) {
                        Some(gid) => {
                            self.drop_game(gid);
                        },
                        None => {},
                    }
                    self.drop_room(rid);
                }
            },
            None => {},
        }
        self.player_manager.remove_player(pid);
    }
}


impl RequestExecutor {
    /// The part of a request that is handled whatever the player's state.
    fn execute_general_request(&mut self, pid: PlayerId, code: PlayerCode)
        requires
            old(self).wf(),
        ensures
            final(self).wf(),
            final(self)@ == old(self)@.after_general(pid, code),
    {
        match code {
            PlayerCode::General(GeneralRequest::PlayerExitApplication) => {
                self.clean_player_existence(pid);
            },
            PlayerCode::General(GeneralRequest::PlayerRequestState) => {
                match self.player_manager.get_player_state(pid) {
                    Some(player_state) => {
                        self.respond(pid, ServerCode::General(GeneralResponse::State(player_state)));
                    },
                    None => {},
                }
            },
            PlayerCode::General(GeneralRequest::IAmAlive) => {
                self.player_manager.mark_as_responsed_to_checkalive(pid);
            },
            _ => {},
        }
    }

    /// Creates a room for `pid` with its game, seats `pid` in seat one and
    /// answers; or answers that no room could be created.
    fn create_room(&mut self, pid: PlayerId, rule_type: GameRule)
        requires
            old(self).wf(),
        ensures
            final(self).wf(),
            final(self)@ == old(self)@.after_logged(
                pid,
                PlayerCode::Logged(LoggedRequest::RequestRoomAsPlayer1(rule_type)),
            ),
    {
        let new_rid = self.room_manager.add_room(rule_type);
        if new_rid == NO_ID {
            self.respond(pid, ServerCode::Logged(LoggedResponse::FailedToCreateRoom));
            return ;
        }
        proof {
            lemma_smallest_free_unique(old(self)@.room_ids, new_rid as int);
        }
        let seated = self.room_manager.add_player_to_room(new_rid, room_manager::PlayerOrder::Player1(pid));
        if !seated {
            self.respond(pid, ServerCode::Logged(LoggedResponse::FailedToJoinRoom(new_rid)));
            return ;
        }
        let ghost roomed = self@;
        let new_gid = self.game_manager.add_game(new_rid, rule_type);
        if new_gid == NO_ID {
            self.drop_room(new_rid);
            self.respond(pid, ServerCode::Logged(LoggedResponse::FailedToCreateRoom));
            return ;
        }
        proof {
            lemma_smallest_free_unique(roomed.game_ids, new_gid as int);
        }
        self.set_state(pid, PlayerState::InRoom(ConnectState::Connected));
        self.respond(pid, ServerCode::Logged(LoggedResponse::JoinedRoomAsPlayer1(new_rid)));
        if self.room_manager.room_full(new_rid) {
            self.room_full_actions(new_rid);
        }
    }

    /// Seats `pid` in the room `rid` if it exists and has a free seat, and
    /// answers; or answers that the room could not be joined.
    fn join_room(&mut self, pid: PlayerId, rid: RoomId)
        requires
            old(self).wf(),
        ensures
            final(self).wf(),
            final(self)@ == old(self)@.after_logged(pid, PlayerCode::Logged(LoggedRequest::JoinRoom(rid))),
    {
        let seats = match self.room_manager.get_pids_in_room(rid) {
            Some(pids) => pids,
            None => {
                self.respond(pid, ServerCode::Logged(LoggedResponse::FailedToJoinRoom(rid)));
                return ;
            },
        };
        if seats.0 != NO_ID && seats.1 != NO_ID {
            self.respond(pid, ServerCode::Logged(LoggedResponse::FailedToJoinRoom(rid)));
            return ;
        }
        let seat = if seats.1 == NO_ID {
            room_manager::PlayerOrder::Player2(pid)
        } else {
            room_manager::PlayerOrder::Player1(pid)
        };
        self.room_manager.add_player_to_room(rid, seat);
        self.set_state(pid, PlayerState::InRoom(ConnectState::Connected));
        let (pid1, pid2) = match self.room_manager.get_pids_in_room(rid) {
            Some(pids) => pids,
            None => {
                return ;
            },
        };
        let answer = if pid == pid1 {
            LoggedResponse::JoinedRoomAsPlayer1(rid)
        } else if pid == pid2 {
            LoggedResponse::JoinedRoomAsPlayer2(rid)
        } else {
            LoggedResponse::FailedToJoinRoom(rid)
        };
        self.respond(pid, ServerCode::Logged(answer));
        if self.room_manager.room_full(rid) {
            self.room_full_actions(rid);
        }
    }

    /// The requests of a player that is logged in and in no room.
    fn execute_logged_request(&mut self, pid: PlayerId, code: PlayerCode)
        requires
            old(self).wf(),
        ensures
            final(self).wf(),
            final(self)@ == old(self)@.after_logged(pid, code),
    {
        match code {
            PlayerCode::Logged(LoggedRequest::RequestRoomAsPlayer1(rule_type)) => {
                self.create_room(pid, rule_type);
            },
            PlayerCode::Logged(LoggedRequest::JoinRoom(rid)) => {
                self.join_room(pid, rid);
            },
            _ => {},
        }
    }

    /// The requests of a player that waits in a room.
    fn execute_waiting_request(&mut self, pid: PlayerId, code: PlayerCode)
        requires
            old(self).wf(),
        ensures
            final(self).wf(),
            final(self)@ == old(self)@.after_in_room(pid, code),
    {
        match code {
            PlayerCode::InRoom(InRoomRequest::PlayerLeaveRoom) => {
                match self.room_manager.find_room_contain_player(pid) {
                    Some(rid) => {
                        self.leave_seat(rid, pid);
                        if self.room_manager.room_empty(rid) {
                            self.drop_room(rid);
                        }
                    },
                    None => {},
                }
                self.set_state(pid, PlayerState::Logged(ConnectState::Connected));
            },
            _ => {},
        }
    }

    /// What every in-game request ends with: the game gets the request, and
    /// both occupants of the room get a fresh snapshot.
    fn execute_ingame_tail(&mut self, pid: PlayerId, rid: RoomId, gid: GameId, code: PlayerCode)
        requires
            old(self).wf(),
        ensures
            final(self).wf(),
            final(self)@ == old(self)@.after_in_game_tail(pid, rid, gid, code),
    {
        let (pid1, pid2) = match self.room_manager.get_pids_in_room(rid) {
            Some(pids) => pids,
            None => {
                return ;
            },
        };
        let player_order = if pid == pid1 {
            game_manager::PlayerOrder::Player1
        } else if pid == pid2 {
            game_manager::PlayerOrder::Player2
        } else {
            return ;
        };
        match self.game_manager.execute_command_in_game(gid, player_order, code) {
            Some(_result) => {},
            None => {
                return ;
            },
        }
        self.response_game_context(pid1);
        self.response_game_context(pid2);
    }

    /// The requests of a player in a game.
    fn execute_ingame_request(&mut self, pid: PlayerId, code: PlayerCode)
        requires
            old(self).wf(),
        ensures
            final(self).wf(),
            final(self)@ == old(self)@.after_in_game(pid, code),
    {
        let request = match code {
            PlayerCode::InGame(request) => request,
            _ => {
                return ;
            },
        };
        let rid = match self.room_manager.find_room_contain_player(pid) {
            Some(rid) => rid,
            None => {
                return ;
            },
        };
        let gid = match self.game_manager.find_game_contain_room(rid) {
            Some(gid) => gid,
            None => {
                return ;
            },
        };
        match request {
            InGameRequest::PlayerLeaveRoom => {
                self.leave_seat(rid, pid);
                if self.room_manager.room_empty(rid) {
                    self.drop_game(gid);
                    self.drop_room(rid);
                }
                self.set_state(pid, PlayerState::Logged(ConnectState::Connected));
            },
            InGameRequest::PlayerRequestContext => {
                self.response_game_context(pid);
            },
            _ => {},
        }
        self.execute_ingame_tail(pid, rid, gid, code);
    }

    /// Handles the request `code` of the player `pid`.
    ///
    /// A request of an unknown player is ignored. Otherwise the general part
    /// of the request is handled, and then the part for the phase in which the
    /// player was when the request arrived. A request that does not belong to
    /// that phase changes nothing and gets no answer. The answers wait in the
    /// queue of outgoing messages. Registries that agreed with each other
    /// before the request agree with each other after it.
    pub fn execute_request(&mut self, pid: PlayerId, code: PlayerCode)
        requires
            old(self).wf(),
        ensures
            final(self).wf(),
            final(self)@ == old(self)@.after_request(pid, code),
            consistent(old(self)@) ==> consistent(final(self)@),
    {
        proof {
            if consistent(old(self)@) {
                old(self).lemma_wf();
                law_request_keeps_consistency(old(self)@, pid, code);
            }
        }
        let player_state = match self.player_manager.get_player_state(pid) {
            Some(state) => state,
            None => {
                return ;
            },
        };
        self.execute_general_request(pid, code);
        match player_state {
            PlayerState::Logged(ConnectState::Connected) => {
                self.execute_logged_request(pid, code);
            },
            PlayerState::InRoom(ConnectState::Connected) => {
                self.execute_waiting_request(pid, code);
            },
            PlayerState::InGame(ConnectState::Connected) => {
                self.execute_ingame_request(pid, code);
            },
            _ => {},
        }
    }
}

} // verus!
