//! What holds of the server whatever its state: statements over the model of
//! the registries, the games and the pool of ids, each proved from the
//! definitions that the contracts of the executable functions use.

use vstd::prelude::*;
use crate::caro_protocol::{
    ConnectState, GameId, GameRule, GenericCodeView, InGameRequest, InGameResponseView, InRoomResponse,
    LoggedRequest, LoggedResponse, PlayerCode, PlayerId, PlayerState, RoomId, ServerCodeView,
};
use crate::game_manager;
use crate::game_manager::{GameModel, OperationResult, first_game_of, is_first_game_of, participant_of};
use crate::id_pool::{NO_ID, smallest_free};
use crate::room_manager::{GameRoom, first_room_of, is_first_room_of};
use crate::server_model::ServerModel;
use crate::simple_caro;
use crate::simple_caro::{MoveResult, opponent_of, turn_of};

verus! {

/// A request that belongs to another phase than the one its sender is in,
/// and that is not a general one, changes nothing and queues no answer. So a
/// `JoinRoom` of a player that is in a game moves nobody and is not answered.
pub proof fn law_request_of_other_phase_is_dropped(server: ServerModel, pid: PlayerId, code: PlayerCode)
    requires
        server.players.contains_key(pid),
        code !is General,
        match server.players[pid].state {
            PlayerState::Logged(_) => code !is Logged,
            PlayerState::InRoom(_) => code !is InRoom,
            PlayerState::InGame(_) => code !is InGame,
        },
    ensures
        server.after_request(pid, code) == server,
{
}

/// A request of a player that is not connected, other than a general one,
/// changes nothing and queues no answer.
pub proof fn law_disconnected_player_is_not_served(server: ServerModel, pid: PlayerId, code: PlayerCode)
    requires
        server.players.contains_key(pid),
        code !is General,
        match server.players[pid].state {
            PlayerState::Logged(connection) => connection == ConnectState::Disconnected,
            PlayerState::InRoom(connection) => connection == ConnectState::Disconnected,
            PlayerState::InGame(connection) => connection == ConnectState::Disconnected,
        },
    ensures
        server.after_request(pid, code) == server,
{
}

/// A move of the player that does not hold the turn is reported as not
/// successful, and the game stays as it was: the board, both histories, both
/// stacks of undone moves and the state.
pub proof fn law_move_out_of_turn_changes_nothing(
    game: GameModel,
    order: game_manager::PlayerOrder,
    latitude: i64,
    longtitude: i64,
)
    requires
        game.engine.state != turn_of(participant_of(order)),
    ensures
        game.result_of(order, PlayerCode::InGame(InGameRequest::PlayerMove((latitude, longtitude))))
            == OperationResult::Unsuccessfully(game.engine.state),
        game.after_command(order, PlayerCode::InGame(InGameRequest::PlayerMove((latitude, longtitude))))
            == game,
{
}

/// After a player was torn down it is no longer registered. If a room seated
/// it and is empty without it, that room is gone, and so is the room's game.
pub proof fn law_clean_removes_player_and_empty_room(server: ServerModel, pid: PlayerId)
    ensures
        !server.after_clean(pid).players.contains_key(pid),
        !server.after_clean(pid).player_ids.contains(pid as int),
        first_room_of(server.rooms, pid) matches Some(rid) ==> {
            &&& server.rooms.contains_key(rid)
            &&& server.rooms[rid].spec_remove_player(pid).spec_is_empty() ==> {
                &&& !server.after_clean(pid).rooms.contains_key(rid)
                &&& first_game_of(server.games, rid) matches Some(gid) ==> !server.after_clean(
                    pid,
                ).games.contains_key(gid)
            }
            &&& !server.rooms[rid].spec_remove_player(pid).spec_is_empty() ==> server.after_clean(pid).rooms
                == server.rooms.insert(rid, server.rooms[rid].spec_remove_player(pid))
        },
        first_room_of(server.rooms, pid) is None ==> server.after_clean(pid).rooms == server.rooms
            && server.after_clean(pid).games == server.games,
{
    match first_room_of(server.rooms, pid) {
        Some(rid) => {
            let chosen = choose|r: RoomId| is_first_room_of(server.rooms, pid, r);
            assert(is_first_room_of(server.rooms, pid, chosen));
        },
        None => {},
    }
}


/// A logged-in, connected player that asks for a room gets one exactly when
/// a room id and a game id are free. Then the new room seats that player alone,
/// in seat one, so it is not full; a game is bound to it; the player waits in
/// it and is told so. Otherwise the only effect is the answer that no room
/// could be created.
pub proof fn law_created_room_has_one_occupant(server: ServerModel, pid: PlayerId, rule: GameRule)
    requires
        server.wf(),
        server.players.contains_key(pid),
        server.players[pid].state == PlayerState::Logged(ConnectState::Connected),
    ensures
        ({
            let after = server.after_request(pid, PlayerCode::Logged(LoggedRequest::RequestRoomAsPlayer1(rule)));
            let rid = server.next_room_id();
            let gid = server.next_game_id();
            if rid != NO_ID && gid != NO_ID {
                &&& rid >= 1
                &&& gid >= 1
                &&& !server.rooms.contains_key(rid)
                &&& !server.games.contains_key(gid)
                &&& after.rooms == server.rooms.insert(rid, GameRoom { player1_id: pid, player2_id: NO_ID, rule })
                &&& after.rooms[rid].occupants() == 1
                &&& !after.rooms[rid].spec_is_full()
                &&& after.games == server.games.insert(gid, GameModel::created(rid, rule))
                &&& after.players == server.players.insert(
                    pid,
                    crate::player_manager::Player {
                        state: PlayerState::InRoom(ConnectState::Connected),
                        ..server.players[pid]
                    },
                )
                &&& after.pending == server.pending.push(
                    (
                        pid,
                        GenericCodeView::Server(ServerCodeView::Logged(LoggedResponse::JoinedRoomAsPlayer1(rid))),
                    ),
                )
            } else {
                after == server.respond(pid, ServerCodeView::Logged(LoggedResponse::FailedToCreateRoom))
            }
        }),
{
    let code = PlayerCode::Logged(LoggedRequest::RequestRoomAsPlayer1(rule));
    let after = server.after_request(pid, code);
    let rid = server.next_room_id();
    let gid = server.next_game_id();
    assert(server.after_general(pid, code) == server);
    assert(after == server.after_logged(pid, code));
    if rid != NO_ID {
        crate::id_pool::lemma_smallest_free_exists(server.room_ids, i32::MAX as int);
        assert(rid == smallest_free(server.room_ids));
        assert(!server.room_ids.contains(rid as int));
        let roomed = server.with_new_room(rule).seated(rid, crate::room_manager::PlayerOrder::Player1(pid));
        assert(roomed.next_game_id() == gid);
        assert(roomed.rooms =~= server.rooms.insert(
            rid,
            GameRoom { player1_id: pid, player2_id: NO_ID, rule },
        ));
        if gid != NO_ID {
            crate::id_pool::lemma_smallest_free_exists(server.game_ids, i32::MAX as int);
            assert(!server.game_ids.contains(gid as int));
        } else {
            assert(roomed.without_room(rid).rooms =~= server.rooms);
            assert(roomed.without_room(rid).room_ids =~= server.room_ids);
            assert(roomed.without_room(rid) == server);
        }
    }
}

/// When a second, different player that is logged in and connected joins a
/// room whose seat one is taken and whose seat two is free, the room is full
/// with the newcomer in seat two; the newcomer is told so; then both occupants
/// are told that the room is full, seat one first, and both are in a game and
/// connected; and the room's game, if it was pending, has started.
pub proof fn law_second_player_fills_room(server: ServerModel, host: PlayerId, guest: PlayerId, rid: RoomId)
    requires
        server.wf(),
        server.players.contains_key(host),
        server.players.contains_key(guest),
        host != guest,
        server.players[guest].state == PlayerState::Logged(ConnectState::Connected),
        server.rooms.contains_key(rid),
        server.rooms[rid].player1_id == host,
        server.rooms[rid].player2_id == NO_ID,
    ensures
        ({
            let after = server.after_request(guest, PlayerCode::Logged(LoggedRequest::JoinRoom(rid)));
            let notice = GenericCodeView::Server(ServerCodeView::InRoom(InRoomResponse::YourRoomIsFull(rid)));
            &&& after.rooms == server.rooms.insert(
                rid,
                GameRoom { player1_id: host, player2_id: guest, rule: server.rooms[rid].rule },
            )
            &&& after.rooms[rid].spec_is_full()
            &&& after.players.dom() == server.players.dom()
            &&& after.players[host].state == PlayerState::InGame(ConnectState::Connected)
            &&& after.players[guest].state == PlayerState::InGame(ConnectState::Connected)
            &&& after.pending == server.pending.push(
                (
                    guest,
                    GenericCodeView::Server(ServerCodeView::Logged(LoggedResponse::JoinedRoomAsPlayer2(rid))),
                ),
            ).push((host, notice)).push((guest, notice))
            &&& after.games == match first_game_of(server.games, rid) {
                Some(gid) => server.games.insert(gid, server.games[gid].after_try_start()),
                None => server.games,
            }
        }),
{
    let code = PlayerCode::Logged(LoggedRequest::JoinRoom(rid));
    let after = server.after_request(guest, code);
    assert(server.after_general(guest, code) == server);
    assert(after == server.after_logged(guest, code));
    assert(host >= 1 && guest >= 1);
    let joined = server.seated(rid, ServerModel::seat_for(server.rooms[rid], guest)).with_state(
        guest,
        PlayerState::InRoom(ConnectState::Connected),
    );
    let room = joined.rooms[rid];
    assert(room == GameRoom { player1_id: host, player2_id: guest, rule: server.rooms[rid].rule });
    let answered = joined.respond(guest, ServerCodeView::Logged(ServerModel::join_answer(room, rid, guest)));
    assert(after == answered.after_room_full(rid));
    match first_game_of(server.games, rid) {
        Some(gid) => {
            let chosen = choose|g: GameId| is_first_game_of(server.games, rid, g);
            assert(is_first_game_of(server.games, rid, chosen));
        },
        None => {},
    }
    assert(after.players.dom() =~= server.players.dom());
}


/// A move, then an undo, then a redo, all of one player, leave both histories
/// as the move alone leaves them; where the move is accepted, they leave the
/// whole game as the move alone leaves it.
///
/// This is stated for every game but one kind: where the move is refused while
/// a redo of the same player would be accepted. There the undo is refused too,
/// and the redo then plays a move that the single move did not play.
pub proof fn law_move_undo_redo_round_trip(
    game: GameModel,
    order: game_manager::PlayerOrder,
    latitude: i64,
    longtitude: i64,
)
    requires
        game.wf(),
        game.accepts(order, PlayerCode::InGame(InGameRequest::PlayerMove((latitude, longtitude))))
            || game.engine.check_redo(participant_of(order)) != MoveResult::Success,
    ensures
        ({
            let moved = game.after_command(
                order,
                PlayerCode::InGame(InGameRequest::PlayerMove((latitude, longtitude))),
            );
            let redone = moved.after_command(order, PlayerCode::InGame(InGameRequest::PlayerUndo)).after_command(
                order,
                PlayerCode::InGame(InGameRequest::PlayerRedo),
            );
            &&& redone.engine.moves1 == moved.engine.moves1
            &&& redone.engine.moves2 == moved.engine.moves2
            &&& game.accepts(order, PlayerCode::InGame(InGameRequest::PlayerMove((latitude, longtitude))))
                ==> redone == moved
        }),
{
    let who = participant_of(order);
    let pos = simple_caro::Coordinate { latitude, longtitude };
    let moved = game.after_command(order, PlayerCode::InGame(InGameRequest::PlayerMove((latitude, longtitude))));
    let undone = moved.after_command(order, PlayerCode::InGame(InGameRequest::PlayerUndo));
    let redone = undone.after_command(order, PlayerCode::InGame(InGameRequest::PlayerRedo));
    if game.engine.check_move(who, pos) == MoveResult::Success {
        let marked = game.engine.after_move(who, pos);
        if marked.state == game.engine.state {
            // The game goes on: the turn has passed, so the undo and the redo are accepted.
            assert(moved.engine.state == turn_of(opponent_of(who)));
            assert(moved.engine.moves(who) == game.engine.moves(who).push(pos));
            assert(moved.engine.moves(who).drop_last() =~= game.engine.moves(who));
            assert(moved.engine.moves(who).last() == pos);
            assert(undone.engine.moves1 =~= game.engine.moves1);
            assert(undone.engine.moves2 =~= game.engine.moves2);
            assert(undone.engine.undone(who) =~= seq![pos]);
            assert(undone.engine.undone(who).last() == pos);
            assert(undone.engine.undone(who).drop_last() =~= Seq::<simple_caro::Coordinate>::empty());
            assert(undone.engine.check_redo(who) == MoveResult::Success);
            let replayed = undone.engine.with_moves(who, undone.engine.moves(who).push(pos)).with_undone(
                who,
                undone.engine.undone(who).drop_last(),
            );
            let first = simple_caro::CaroModel {
                undone1: Seq::empty(),
                undone2: Seq::empty(),
                ..game.engine.with_moves(who, game.engine.moves(who).push(pos))
            };
            simple_caro::lemma_same_board_same_win(replayed, first, who, latitude as int, longtitude as int);
            assert(redone.engine.moves1 =~= moved.engine.moves1);
            assert(redone.engine.moves2 =~= moved.engine.moves2);
            assert(redone.engine.undone1 =~= moved.engine.undone1);
            assert(redone.engine.undone2 =~= moved.engine.undone2);
            assert(redone.engine == moved.engine);
        } else {
            // The move ended the game: neither an undo nor a redo is accepted.
            assert(undone == moved);
            assert(redone == moved);
        }
    } else {
        assert(moved == game);
        if game.engine.check_undo(who) == MoveResult::Success {
            simple_caro::lemma_last_move_is_free_without_it(game.engine, who);
            let last = game.engine.moves(who).last();
            assert(undone.engine.undone(who).last() == last);
            assert(undone.engine.moves(who) == game.engine.moves(who).drop_last());
            assert(undone.engine.check_redo(who) == MoveResult::Success);
            assert(game.engine.moves(who).drop_last().push(last) =~= game.engine.moves(who));
            assert(redone.engine.moves1 =~= game.engine.moves1);
            assert(redone.engine.moves2 =~= game.engine.moves2);
        } else {
            assert(undone == game);
            assert(redone == game);
        }
    }
}


/// The snapshot of `game` for the player in seat `receiver` of `room`.
pub open spec fn snapshot_for(
    server: ServerModel,
    room: GameRoom,
    game: GameModel,
    receiver: crate::caro_protocol::PlayerOrder,
) -> crate::caro_protocol::GameContextView {
    crate::caro_protocol::GameContextView {
        board_height: game.engine.height,
        board_width: game.engine.width,
        player1_move_history: game_manager::protocol_moves(game.engine.moves1),
        player2_move_history: game_manager::protocol_moves(game.engine.moves2),
        player1_undone_moves: game_manager::protocol_moves(game.engine.undone1),
        player2_undone_moves: game_manager::protocol_moves(game.engine.undone2),
        game_state: game.state(),
        player1_connection_state: crate::server_model::connection_in_game(server.players, room.player1_id),
        player2_connection_state: crate::server_model::connection_in_game(server.players, room.player2_id),
        receiver_order: receiver,
    }
}

/// A legal move of a player in a game reaches the game and both occupants of
/// the room: the move ends the mover's history; the turn passes to the
/// opponent unless the move ended the game with a win or a draw; and seat one,
/// then seat two, is sent a snapshot taken after the move. The two snapshots
/// differ in nothing but the seat of the receiver.
pub proof fn law_legal_move_reaches_both_occupants(
    server: ServerModel,
    mover: PlayerId,
    rid: RoomId,
    gid: GameId,
    latitude: i64,
    longtitude: i64,
)
    requires
        server.wf(),
        server.players.contains_key(mover),
        server.players[mover].state == PlayerState::InGame(ConnectState::Connected),
        server.rooms.contains_key(rid),
        server.rooms[rid].seats(mover),
        server.rooms[rid].player1_id != server.rooms[rid].player2_id,
        server.players.contains_key(server.rooms[rid].player1_id),
        server.players.contains_key(server.rooms[rid].player2_id),
        first_room_of(server.rooms, server.rooms[rid].player1_id) == Some(rid),
        first_room_of(server.rooms, server.rooms[rid].player2_id) == Some(rid),
        first_game_of(server.games, rid) == Some(gid),
        ServerModel::order_in(server.rooms[rid], mover) matches Some(order) && server.games[gid].accepts(
            order,
            PlayerCode::InGame(InGameRequest::PlayerMove((latitude, longtitude))),
        ),
    ensures
        ({
            let code = PlayerCode::InGame(InGameRequest::PlayerMove((latitude, longtitude)));
            let after = server.after_request(mover, code);
            let room = server.rooms[rid];
            let order = ServerModel::order_in(room, mover)->0;
            let who = participant_of(order);
            let game = server.games[gid].after_command(order, code);
            &&& after.rooms == server.rooms
            &&& after.players == server.players
            &&& after.games == server.games.insert(gid, game)
            &&& game.engine.moves(who) == server.games[gid].engine.moves(who).push(
                simple_caro::Coordinate { latitude, longtitude },
            )
            &&& game.engine.moves(opponent_of(who)) == server.games[gid].engine.moves(opponent_of(who))
            &&& game.engine.state == turn_of(opponent_of(who)) || game.engine.state == simple_caro::won_by(who)
                || game.engine.state == simple_caro::GameState::Drew
            &&& game_manager::protocol_moves(game.engine.moves(who)).last() == (latitude, longtitude)
            &&& after.pending == server.pending.push(
                (
                    room.player1_id,
                    GenericCodeView::Server(
                        ServerCodeView::InGame(
                            InGameResponseView::Context(
                                snapshot_for(server, room, game, crate::caro_protocol::PlayerOrder::Player1),
                            ),
                        ),
                    ),
                ),
            ).push(
                (
                    room.player2_id,
                    GenericCodeView::Server(
                        ServerCodeView::InGame(
                            InGameResponseView::Context(
                                snapshot_for(server, room, game, crate::caro_protocol::PlayerOrder::Player2),
                            ),
                        ),
                    ),
                ),
            )
        }),
{
    let code = PlayerCode::InGame(InGameRequest::PlayerMove((latitude, longtitude)));
    let after = server.after_request(mover, code);
    let room = server.rooms[rid];
    let order = ServerModel::order_in(room, mover)->0;
    let who = participant_of(order);
    let game = server.games[gid].after_command(order, code);
    assert(server.after_general(mover, code) == server);
    assert(first_room_of(server.rooms, mover) == Some(rid));
    assert(after == server.after_in_game_tail(mover, rid, gid, code));
    let chosen = choose|g: GameId| is_first_game_of(server.games, rid, g);
    assert(is_first_game_of(server.games, rid, chosen));
    assert(server.games.contains_key(gid));
    let played = server.with_command(gid, order, code);
    assert(is_first_game_of(played.games, rid, gid));
    game_manager::lemma_first_game_of(played.games, rid, Some(gid));
    let first = played.after_response_context(room.player1_id);
    assert(first.games == played.games);
    assert(first.rooms == played.rooms);
    assert(after == first.after_response_context(room.player2_id));
    assert(game.engine.moves(who).last() == simple_caro::Coordinate { latitude, longtitude });
}

} // verus!
