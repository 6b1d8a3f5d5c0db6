//! How the registries refer to each other, and that every request keeps it so.

use vstd::prelude::*;
use crate::caro_protocol::{ConnectState, GameId, PlayerCode, PlayerId, PlayerState, RoomId};
use crate::game_manager::{
    GameModel, first_game_of, is_first_game_of, lemma_first_game_exists, lemma_first_game_of,
};
use crate::id_pool::NO_ID;
use crate::player_manager::Player;
use crate::room_manager::{GameRoom, first_room_of, is_first_room_of, lemma_first_room_of, no_room_of};
use crate::server_model::ServerModel;

verus! {

/// No player sits in both rooms.
pub open spec fn share_no_player(a: GameRoom, b: GameRoom) -> bool {
    &&& a.player1_id != NO_ID ==> !b.seats(a.player1_id)
    &&& a.player2_id != NO_ID ==> !b.seats(a.player2_id)
}

/// The seats of `room` that are taken hold registered players, two different
/// ones if both are taken, and at least one is taken.
pub open spec fn seats_in_order(players: Map<PlayerId, Player>, room: GameRoom) -> bool {
    &&& room.player1_id != NO_ID ==> players.contains_key(room.player1_id)
    &&& room.player2_id != NO_ID ==> players.contains_key(room.player2_id)
    &&& room.player1_id != NO_ID ==> room.player1_id != room.player2_id
    &&& !room.spec_is_empty()
}

/// The registries agree with each other:
/// every taken seat holds a registered player; nobody sits in two seats; no
/// room is empty; a player is logged in and in no room exactly when no room
/// seats it; and every room has a game.
pub open spec fn consistent(server: ServerModel) -> bool {
    &&& forall|rid: RoomId| #[trigger]
        server.rooms.contains_key(rid) ==> seats_in_order(server.players, server.rooms[rid])
    &&& forall|r1: RoomId, r2: RoomId|
        #[trigger] server.rooms.contains_key(r1) && #[trigger] server.rooms.contains_key(r2) && r1 != r2
            ==> share_no_player(server.rooms[r1], server.rooms[r2])
    &&& forall|pid: PlayerId| #[trigger]
        server.players.contains_key(pid) ==> (server.players[pid].state is Logged <==> no_room_of(
            server.rooms,
            pid,
        ))
    &&& forall|rid: RoomId| #[trigger]
        server.rooms.contains_key(rid) ==> first_game_of(server.games, rid) is Some
}

/// In a consistent server the room that seats a player is the only one.
pub proof fn lemma_one_room_per_player(server: ServerModel, pid: PlayerId, rid: RoomId)
    requires
        consistent(server),
        pid != NO_ID,
        server.rooms.contains_key(rid),
        server.rooms[rid].seats(pid),
    ensures
        first_room_of(server.rooms, pid) == Some(rid),
        forall|other: RoomId| server.rooms.contains_key(other) && other != rid ==> !server.rooms[other].seats(pid),
{
    assert forall|other: RoomId| server.rooms.contains_key(other) && other != rid implies !server.rooms[other].seats(
        pid,
    ) by {
        assert(share_no_player(server.rooms[rid], server.rooms[other]));
    }
    assert(is_first_room_of(server.rooms, pid, rid));
    lemma_first_room_of(server.rooms, pid, Some(rid));
}

/// Tearing a player down keeps a consistent server consistent.
pub proof fn law_clean_keeps_consistency(server: ServerModel, pid: PlayerId)
    requires
        server.wf(),
        consistent(server),
    ensures
        consistent(server.after_clean(pid)),
{
    let after = server.after_clean(pid);
    if pid == NO_ID {
        // No room seats nobody: every room has a taken seat, but the search for
        // `NO_ID` finds rooms with a free seat.
        match first_room_of(server.rooms, pid) {
            Some(rid) => {
                let chosen = choose|r: RoomId| is_first_room_of(server.rooms, pid, r);
                assert(is_first_room_of(server.rooms, pid, chosen));
                assert(server.rooms.contains_key(rid));
                assert(seats_in_order(server.players, server.rooms[rid]));
                assert(server.rooms[rid].spec_remove_player(pid) == server.rooms[rid]);
                assert(server.unseated(rid, pid).rooms =~= server.rooms);
                assert(after.rooms =~= server.rooms);
                assert(after.games == server.games);
            },
            None => {},
        }
        assert(!server.players.contains_key(pid));
        assert(after.players =~= server.players);
        assert(after.rooms == server.rooms);
        assert(after.games == server.games);
    } else {
        match first_room_of(server.rooms, pid) {
            Some(rid) => {
                let chosen = choose|r: RoomId| is_first_room_of(server.rooms, pid, r);
                assert(is_first_room_of(server.rooms, pid, chosen));
                lemma_one_room_per_player(server, pid, rid);
                lemma_unseat_keeps_consistency(server, pid, rid);
            },
            None => {
                crate::room_manager::lemma_no_first_room(server.rooms, pid);
                assert(after.rooms == server.rooms);
                assert(after.games == server.games);
                assert forall|p: PlayerId| after.players.contains_key(p) implies (after.players[p].state is Logged
                    <==> no_room_of(after.rooms, p)) by {
                    assert(server.players.contains_key(p));
                }
                assert forall|r: RoomId| after.rooms.contains_key(r) implies seats_in_order(
                    after.players,
                    after.rooms[r],
                ) by {
                    assert(seats_in_order(server.players, server.rooms[r]));
                    assert(!server.rooms[r].seats(pid));
                }
            },
        }
    }
}

/// Taking a player out of the room that seats it, removing the room with its
/// game if it is empty then, and removing the player keeps consistency.
proof fn lemma_unseat_keeps_consistency(server: ServerModel, pid: PlayerId, rid: RoomId)
    requires
        server.wf(),
        consistent(server),
        pid != NO_ID,
        first_room_of(server.rooms, pid) == Some(rid),
        server.rooms.contains_key(rid),
        server.rooms[rid].seats(pid),
        forall|other: RoomId| server.rooms.contains_key(other) && other != rid ==> !server.rooms[other].seats(pid),
    ensures
        consistent(server.after_clean(pid)),
{
    let after = server.after_clean(pid);
    let left = server.unseated(rid, pid);
    let room = server.rooms[rid];
    let rest = room.spec_remove_player(pid);
    assert(seats_in_order(server.players, room));
    assert(!rest.seats(pid));
    assert(left.rooms[rid] == rest);
    if rest.spec_is_empty() {
        let unbound = match first_game_of(left.games, rid) {
            Some(gid) => left.without_game(gid),
            None => left,
        };
        assert(after.rooms =~= server.rooms.remove(rid));
        assert forall|r: RoomId| #[trigger] after.rooms.contains_key(r) implies first_game_of(after.games, r) is Some by {
            assert(server.rooms.contains_key(r));
            lemma_other_rooms_keep_their_game(server.games, rid, r);
        }
    } else {
        assert(after.rooms =~= server.rooms.insert(rid, rest));
        assert(after.games == server.games);
    }
    assert forall|r: RoomId| #[trigger] after.rooms.contains_key(r) implies seats_in_order(
        after.players,
        after.rooms[r],
    ) by {
        assert(server.rooms.contains_key(r));
        assert(seats_in_order(server.players, server.rooms[r]));
        if r != rid {
            assert(!server.rooms[r].seats(pid));
        }
    }
    assert forall|r1: RoomId, r2: RoomId|
        #[trigger] after.rooms.contains_key(r1) && #[trigger] after.rooms.contains_key(r2) && r1
            != r2 implies share_no_player(after.rooms[r1], after.rooms[r2]) by {
        assert(server.rooms.contains_key(r1) && server.rooms.contains_key(r2));
        assert(share_no_player(server.rooms[r1], server.rooms[r2]));
    }
    assert forall|p: PlayerId| #[trigger] after.players.contains_key(p) implies (after.players[p].state is Logged
        <==> no_room_of(after.rooms, p)) by {
        assert(server.players.contains_key(p));
        assert(p != pid);
        assert(p != NO_ID);
        if no_room_of(server.rooms, p) {
            assert forall|r: RoomId| after.rooms.contains_key(r) implies !after.rooms[r].seats(p) by {
                assert(server.rooms.contains_key(r));
                assert(!server.rooms[r].seats(p));
            }
        } else {
            let r = choose|r: RoomId| server.rooms.contains_key(r) && server.rooms[r].seats(p);
            assert(server.rooms.contains_key(r) && server.rooms[r].seats(p));
            if r == rid {
                assert(rest.seats(p));
                assert(!rest.spec_is_empty());
            }
            assert(after.rooms.contains_key(r) && after.rooms[r].seats(p));
        }
    }
}

/// Removing the first game of one room leaves every other room's games alone.
proof fn lemma_other_rooms_keep_their_game(games: Map<GameId, GameModel>, rid: RoomId, other: RoomId)
    requires
        rid != other,
        first_game_of(games, other) is Some,
    ensures
        match first_game_of(games, rid) {
            Some(gid) => first_game_of(games.remove(gid), other) is Some,
            None => true,
        },
{
    let kept = choose|g: GameId| is_first_game_of(games, other, g);
    assert(is_first_game_of(games, other, kept));
    match first_game_of(games, rid) {
        Some(gid) => {
            let removed = choose|g: GameId| is_first_game_of(games, rid, g);
            assert(is_first_game_of(games, rid, removed));
            assert(is_first_game_of(games.remove(gid), other, kept));
            lemma_first_game_of(games.remove(gid), other, Some(kept));
        },
        None => {},
    }
}


/// A change that leaves the rooms alone, registers and removes nobody, moves
/// nobody between being logged in and being in a room, and leaves every room
/// with a game, keeps consistency.
pub proof fn lemma_same_seating(before: ServerModel, after: ServerModel)
    requires
        consistent(before),
        after.rooms == before.rooms,
        after.players.dom() == before.players.dom(),
        forall|pid: PlayerId| #[trigger]
            before.players.contains_key(pid) ==> (after.players[pid].state is Logged
                <==> before.players[pid].state is Logged),
        forall|rid: RoomId| #[trigger]
            before.rooms.contains_key(rid) ==> first_game_of(after.games, rid) is Some,
    ensures
        consistent(after),
{
    assert forall|rid: RoomId| #[trigger] after.rooms.contains_key(rid) implies seats_in_order(
        after.players,
        after.rooms[rid],
    ) by {
        assert(seats_in_order(before.players, before.rooms[rid]));
        let room = before.rooms[rid];
        if room.player1_id != NO_ID {
            assert(before.players.dom().contains(room.player1_id));
        }
        if room.player2_id != NO_ID {
            assert(before.players.dom().contains(room.player2_id));
        }
    }
    assert forall|pid: PlayerId| #[trigger] after.players.contains_key(pid) implies (after.players[pid].state is Logged
        <==> no_room_of(after.rooms, pid)) by {
        assert(before.players.dom().contains(pid));
        assert(before.players.contains_key(pid));
    }
}

/// Replacing a game by one of the same room leaves every room with a game.
proof fn lemma_game_replaced(games: Map<GameId, GameModel>, gid: GameId, game: GameModel, rid: RoomId)
    requires
        games.contains_key(gid),
        game.room_id == games[gid].room_id,
        first_game_of(games, rid) is Some,
    ensures
        first_game_of(games.insert(gid, game), rid) is Some,
{
    let first = choose|g: GameId| is_first_game_of(games, rid, g);
    assert(is_first_game_of(games, rid, first));
    lemma_first_game_exists(games.insert(gid, game), rid, first);
}

/// Adding a game leaves every room that had a game with one.
proof fn lemma_game_added(games: Map<GameId, GameModel>, gid: GameId, game: GameModel, rid: RoomId)
    requires
        !games.contains_key(gid),
        first_game_of(games, rid) is Some,
    ensures
        first_game_of(games.insert(gid, game), rid) is Some,
{
    let first = choose|g: GameId| is_first_game_of(games, rid, g);
    assert(is_first_game_of(games, rid, first));
    lemma_first_game_exists(games.insert(gid, game), rid, first);
}

/// Queuing a message keeps consistency.
proof fn lemma_respond(server: ServerModel, pid: PlayerId, code: crate::caro_protocol::ServerCodeView)
    requires
        consistent(server),
    ensures
        consistent(server.respond(pid, code)),
        server.respond(pid, code).rooms == server.rooms,
        server.respond(pid, code).players == server.players,
        server.respond(pid, code).games == server.games,
{
}

/// What follows a room's becoming full keeps consistency.
proof fn lemma_room_full(server: ServerModel, rid: RoomId)
    requires
        consistent(server),
    ensures
        consistent(server.after_room_full(rid)),
{
    let started = match first_game_of(server.games, rid) {
        Some(gid) => server.with_started_game(gid),
        None => server,
    };
    match first_game_of(server.games, rid) {
        Some(gid) => {
            let first = choose|g: GameId| is_first_game_of(server.games, rid, g);
            assert(is_first_game_of(server.games, rid, first));
            assert forall|r: RoomId| #[trigger] server.rooms.contains_key(r) implies first_game_of(
                started.games,
                r,
            ) is Some by {
                lemma_game_replaced(server.games, gid, server.games[gid].after_try_start(), r);
            }
        },
        None => {},
    }
    lemma_same_seating(server, started);
    if started.rooms.contains_key(rid) {
        let room = started.rooms[rid];
        let after = server.after_room_full(rid);
        assert(seats_in_order(started.players, room));
        assert(after.players.dom() =~= started.players.dom());
        assert forall|pid: PlayerId| #[trigger] started.players.contains_key(pid) implies (after.players[pid].state is Logged
            <==> started.players[pid].state is Logged) by {
            if pid == room.player1_id || pid == room.player2_id {
                assert(room.seats(pid));
                assert(!no_room_of(started.rooms, pid));
            }
        }
        lemma_same_seating(started, after);
    }
}


/// Seating a player that sits nowhere in a free seat keeps consistency, once
/// the player is no longer logged in and in no room.
proof fn lemma_join(server: ServerModel, pid: PlayerId, rid: RoomId)
    requires
        server.wf(),
        consistent(server),
        server.players.contains_key(pid),
        server.players[pid].state is Logged,
        server.rooms.contains_key(rid),
        !server.rooms[rid].spec_is_full(),
    ensures
        consistent(
            server.seated(rid, ServerModel::seat_for(server.rooms[rid], pid)).with_state(
                pid,
                PlayerState::InRoom(ConnectState::Connected),
            ),
        ),
{
    let room = server.rooms[rid];
    let seat = ServerModel::seat_for(room, pid);
    let after = server.seated(rid, seat).with_state(pid, PlayerState::InRoom(ConnectState::Connected));
    let joined = room.spec_add_player(seat);
    assert(pid >= 1);
    assert(no_room_of(server.rooms, pid));
    assert(after.rooms =~= server.rooms.insert(rid, joined));
    assert(seats_in_order(server.players, room));
    assert(!room.seats(pid));
    assert forall|r: RoomId| #[trigger] after.rooms.contains_key(r) implies seats_in_order(
        after.players,
        after.rooms[r],
    ) by {
        assert(server.rooms.contains_key(r));
        assert(seats_in_order(server.players, server.rooms[r]));
    }
    assert forall|r1: RoomId, r2: RoomId|
        #[trigger] after.rooms.contains_key(r1) && #[trigger] after.rooms.contains_key(r2) && r1
            != r2 implies share_no_player(after.rooms[r1], after.rooms[r2]) by {
        assert(server.rooms.contains_key(r1) && server.rooms.contains_key(r2));
        assert(share_no_player(server.rooms[r1], server.rooms[r2]));
        assert(!server.rooms[r1].seats(pid));
        assert(!server.rooms[r2].seats(pid));
    }
    assert forall|p: PlayerId| #[trigger] after.players.contains_key(p) implies (after.players[p].state is Logged
        <==> no_room_of(after.rooms, p)) by {
        assert(server.players.contains_key(p));
        if p == pid {
            assert(after.rooms.contains_key(rid) && after.rooms[rid].seats(pid));
        } else if no_room_of(server.rooms, p) {
            assert forall|r: RoomId| after.rooms.contains_key(r) implies !after.rooms[r].seats(p) by {
                assert(server.rooms.contains_key(r));
                assert(!server.rooms[r].seats(p));
            }
        } else {
            let r = choose|r: RoomId| server.rooms.contains_key(r) && server.rooms[r].seats(p);
            assert(server.rooms.contains_key(r) && server.rooms[r].seats(p));
            assert(after.rooms.contains_key(r) && after.rooms[r].seats(p));
        }
    }
    assert forall|r: RoomId| #[trigger] after.rooms.contains_key(r) implies first_game_of(after.games, r) is Some by {
        assert(server.rooms.contains_key(r));
    }
}

/// The requests of a logged-in player keep consistency.
proof fn lemma_logged(server: ServerModel, pid: PlayerId, code: PlayerCode)
    requires
        server.wf(),
        consistent(server),
        server.players.contains_key(pid),
        server.players[pid].state is Logged,
    ensures
        consistent(server.after_logged(pid, code)),
{
    match code {
        PlayerCode::Logged(crate::caro_protocol::LoggedRequest::RequestRoomAsPlayer1(rule)) => {
            let rid = server.next_room_id();
            if rid != NO_ID {
                crate::id_pool::lemma_smallest_free_exists(server.room_ids, i32::MAX as int);
                assert(!server.room_ids.contains(rid as int));
                assert(!server.rooms.contains_key(rid));
                let roomed = server.with_new_room(rule).seated(rid, crate::room_manager::PlayerOrder::Player1(pid));
                let room = GameRoom { player1_id: pid, player2_id: NO_ID, rule };
                assert(roomed.rooms =~= server.rooms.insert(rid, room));
                let gid = roomed.next_game_id();
                if gid == NO_ID {
                    assert(roomed.without_room(rid).rooms =~= server.rooms);
                    lemma_same_seating(server, roomed.without_room(rid));
                } else {
                    crate::id_pool::lemma_smallest_free_exists(server.game_ids, i32::MAX as int);
                    assert(!server.game_ids.contains(gid as int));
                    assert(!server.games.contains_key(gid));
                    let ready = roomed.with_new_game(rid, rule).with_state(
                        pid,
                        PlayerState::InRoom(ConnectState::Connected),
                    );
                    assert(pid >= 1);
                    assert(no_room_of(server.rooms, pid));
                    assert(ready.rooms == roomed.rooms);
                    assert forall|r: RoomId| #[trigger] ready.rooms.contains_key(r) implies seats_in_order(
                        ready.players,
                        ready.rooms[r],
                    ) by {
                        if r != rid {
                            assert(server.rooms.contains_key(r));
                            assert(seats_in_order(server.players, server.rooms[r]));
                        }
                    }
                    assert forall|r1: RoomId, r2: RoomId|
                        #[trigger] ready.rooms.contains_key(r1) && #[trigger] ready.rooms.contains_key(r2) && r1
                            != r2 implies share_no_player(ready.rooms[r1], ready.rooms[r2]) by {
                        if r1 != rid && r2 != rid {
                            assert(server.rooms.contains_key(r1) && server.rooms.contains_key(r2));
                            assert(share_no_player(server.rooms[r1], server.rooms[r2]));
                        } else if r1 == rid {
                            assert(server.rooms.contains_key(r2));
                            assert(!server.rooms[r2].seats(pid));
                        } else {
                            assert(server.rooms.contains_key(r1));
                            assert(!server.rooms[r1].seats(pid));
                            assert(seats_in_order(server.players, server.rooms[r1]));
                        }
                    }
                    assert forall|p: PlayerId| #[trigger] ready.players.contains_key(p) implies (ready.players[p].state is Logged
                        <==> no_room_of(ready.rooms, p)) by {
                        assert(server.players.contains_key(p));
                        if p == pid {
                            assert(ready.rooms.contains_key(rid) && ready.rooms[rid].seats(pid));
                        } else if no_room_of(server.rooms, p) {
                            assert(p >= 1);
                            assert forall|r: RoomId| ready.rooms.contains_key(r) implies !ready.rooms[r].seats(
                                p,
                            ) by {
                                if r != rid {
                                    assert(server.rooms.contains_key(r));
                                    assert(!server.rooms[r].seats(p));
                                }
                            }
                        } else {
                            let r = choose|r: RoomId| server.rooms.contains_key(r) && server.rooms[r].seats(p);
                            assert(server.rooms.contains_key(r) && server.rooms[r].seats(p));
                            assert(ready.rooms.contains_key(r) && ready.rooms[r].seats(p));
                        }
                    }
                    assert forall|r: RoomId| #[trigger] ready.rooms.contains_key(r) implies first_game_of(
                        ready.games,
                        r,
                    ) is Some by {
                        if r == rid {
                            lemma_first_game_exists(ready.games, rid, gid);
                        } else {
                            assert(server.rooms.contains_key(r));
                            lemma_game_added(server.games, gid, GameModel::created(rid, rule), r);
                        }
                    }
                    assert(consistent(ready));
                    let answered = ready.respond(
                        pid,
                        crate::caro_protocol::ServerCodeView::Logged(
                            crate::caro_protocol::LoggedResponse::JoinedRoomAsPlayer1(rid),
                        ),
                    );
                    lemma_room_full(answered, rid);
                }
            }
        },
        PlayerCode::Logged(crate::caro_protocol::LoggedRequest::JoinRoom(rid)) => {
            if server.rooms.contains_key(rid) && !server.rooms[rid].spec_is_full() {
                lemma_join(server, pid, rid);
                let joined = server.seated(rid, ServerModel::seat_for(server.rooms[rid], pid)).with_state(
                    pid,
                    PlayerState::InRoom(ConnectState::Connected),
                );
                let answered = joined.respond(
                    pid,
                    crate::caro_protocol::ServerCodeView::Logged(
                        ServerModel::join_answer(joined.rooms[rid], rid, pid),
                    ),
                );
                lemma_room_full(answered, rid);
            }
        },
        _ => {},
    }
}


/// The server after `pid` left the room `rid`, which seats it: the seat is
/// empty, the room is gone if it is empty then, with the game `gid` if one is
/// named, and the player is logged in and in no room.
pub open spec fn after_leave(server: ServerModel, pid: PlayerId, rid: RoomId, gid: Option<GameId>) -> ServerModel {
    let unseated = server.unseated(rid, pid);
    let left = if unseated.rooms[rid].spec_is_empty() {
        match gid {
            Some(gid) => unseated.without_game(gid).without_room(rid),
            None => unseated.without_room(rid),
        }
    } else {
        unseated
    };
    left.with_state(pid, PlayerState::Logged(ConnectState::Connected))
}

/// Leaving a room keeps consistency.
proof fn lemma_leave(server: ServerModel, pid: PlayerId, rid: RoomId, gid: Option<GameId>)
    requires
        server.wf(),
        consistent(server),
        server.players.contains_key(pid),
        server.rooms.contains_key(rid),
        server.rooms[rid].seats(pid),
        gid matches Some(g) ==> server.games.contains_key(g) ==> server.games[g].room_id == rid,
    ensures
        consistent(after_leave(server, pid, rid, gid)),
        !after_leave(server, pid, rid, gid).rooms.contains_key(rid) || !after_leave(
            server,
            pid,
            rid,
            gid,
        ).rooms[rid].seats(pid),
{
    let after = after_leave(server, pid, rid, gid);
    let room = server.rooms[rid];
    let rest = room.spec_remove_player(pid);
    assert(pid >= 1);
    lemma_one_room_per_player(server, pid, rid);
    assert(seats_in_order(server.players, room));
    assert(!rest.seats(pid));
    if rest.spec_is_empty() {
        assert(after.rooms =~= server.rooms.remove(rid));
        assert forall|r: RoomId| #[trigger] after.rooms.contains_key(r) implies first_game_of(after.games, r) is Some by {
            assert(server.rooms.contains_key(r));
            match gid {
                Some(gid) => {
                    let first = choose|g: GameId| is_first_game_of(server.games, r, g);
                    assert(is_first_game_of(server.games, r, first));
                    lemma_first_game_exists(server.games.remove(gid), r, first);
                },
                None => {},
            }
        }
    } else {
        assert(after.rooms =~= server.rooms.insert(rid, rest));
        assert(after.games == server.games);
    }
    assert forall|r: RoomId| #[trigger] after.rooms.contains_key(r) implies seats_in_order(
        after.players,
        after.rooms[r],
    ) by {
        assert(server.rooms.contains_key(r));
        assert(seats_in_order(server.players, server.rooms[r]));
    }
    assert forall|r1: RoomId, r2: RoomId|
        #[trigger] after.rooms.contains_key(r1) && #[trigger] after.rooms.contains_key(r2) && r1
            != r2 implies share_no_player(after.rooms[r1], after.rooms[r2]) by {
        assert(server.rooms.contains_key(r1) && server.rooms.contains_key(r2));
        assert(share_no_player(server.rooms[r1], server.rooms[r2]));
    }
    assert forall|p: PlayerId| #[trigger] after.players.contains_key(p) implies (after.players[p].state is Logged
        <==> no_room_of(after.rooms, p)) by {
        assert(server.players.contains_key(p));
        assert(p >= 1);
        if p == pid {
            assert forall|r: RoomId| after.rooms.contains_key(r) implies !after.rooms[r].seats(p) by {
                assert(server.rooms.contains_key(r));
            }
        } else if no_room_of(server.rooms, p) {
            assert forall|r: RoomId| after.rooms.contains_key(r) implies !after.rooms[r].seats(p) by {
                assert(server.rooms.contains_key(r));
                assert(!server.rooms[r].seats(p));
            }
        } else {
            let r = choose|r: RoomId| server.rooms.contains_key(r) && server.rooms[r].seats(p);
            assert(server.rooms.contains_key(r) && server.rooms[r].seats(p));
            if r == rid {
                assert(rest.seats(p));
            }
            assert(after.rooms.contains_key(r) && after.rooms[r].seats(p));
        }
    }
}


/// A player that is registered and not logged in sits in exactly one room.
proof fn lemma_room_of_seated_player(server: ServerModel, pid: PlayerId) -> (rid: RoomId)
    requires
        server.wf(),
        consistent(server),
        server.players.contains_key(pid),
        !(server.players[pid].state is Logged),
    ensures
        first_room_of(server.rooms, pid) == Some(rid),
        server.rooms.contains_key(rid),
        server.rooms[rid].seats(pid),
        first_game_of(server.games, rid) is Some,
{
    assert(!no_room_of(server.rooms, pid));
    let rid = choose|r: RoomId| server.rooms.contains_key(r) && server.rooms[r].seats(pid);
    assert(server.rooms.contains_key(rid) && server.rooms[rid].seats(pid));
    assert(pid >= 1);
    lemma_one_room_per_player(server, pid, rid);
    rid
}

/// The requests of a player that waits in a room keep consistency.
proof fn lemma_in_room(server: ServerModel, pid: PlayerId, code: PlayerCode)
    requires
        server.wf(),
        consistent(server),
        server.players.contains_key(pid),
        server.players[pid].state is InRoom,
    ensures
        consistent(server.after_in_room(pid, code)),
{
    match code {
        PlayerCode::InRoom(crate::caro_protocol::InRoomRequest::PlayerLeaveRoom) => {
            let rid = lemma_room_of_seated_player(server, pid);
            lemma_leave(server, pid, rid, None);
            assert(server.after_in_room(pid, code) == after_leave(server, pid, rid, None));
        },
        _ => {},
    }
}

/// Queuing the snapshot of a game keeps consistency and changes neither
/// rooms nor players nor games.
proof fn lemma_response_context(server: ServerModel, pid: PlayerId)
    requires
        consistent(server),
    ensures
        consistent(server.after_response_context(pid)),
        server.after_response_context(pid).rooms == server.rooms,
        server.after_response_context(pid).players == server.players,
        server.after_response_context(pid).games == server.games,
{
}

/// What every in-game request ends with keeps consistency.
proof fn lemma_in_game_tail(server: ServerModel, pid: PlayerId, rid: RoomId, gid: GameId, code: PlayerCode)
    requires
        consistent(server),
    ensures
        consistent(server.after_in_game_tail(pid, rid, gid, code)),
{
    if server.rooms.contains_key(rid) {
        let room = server.rooms[rid];
        match ServerModel::order_in(room, pid) {
            Some(order) => {
                if server.games.contains_key(gid) {
                    let played = server.with_command(gid, order, code);
                    assert forall|r: RoomId| #[trigger] server.rooms.contains_key(r) implies first_game_of(
                        played.games,
                        r,
                    ) is Some by {
                        lemma_game_replaced(server.games, gid, server.games[gid].after_command(order, code), r);
                    }
                    lemma_same_seating(server, played);
                    lemma_response_context(played, room.player1_id);
                    lemma_response_context(played.after_response_context(room.player1_id), room.player2_id);
                }
            },
            None => {},
        }
    }
}

/// The requests of a player in a game keep consistency.
proof fn lemma_in_game(server: ServerModel, pid: PlayerId, code: PlayerCode)
    requires
        server.wf(),
        consistent(server),
        server.players.contains_key(pid),
        server.players[pid].state is InGame,
    ensures
        consistent(server.after_in_game(pid, code)),
{
    match code {
        PlayerCode::InGame(request) => {
            let rid = lemma_room_of_seated_player(server, pid);
            let first = choose|g: GameId| is_first_game_of(server.games, rid, g);
            assert(is_first_game_of(server.games, rid, first));
            let gid = first_game_of(server.games, rid)->0;
            assert(gid == first);
            let handled = match request {
                crate::caro_protocol::InGameRequest::PlayerLeaveRoom => after_leave(server, pid, rid, Some(gid)),
                crate::caro_protocol::InGameRequest::PlayerRequestContext => server.after_response_context(pid),
                _ => server,
            };
            match request {
                crate::caro_protocol::InGameRequest::PlayerLeaveRoom => {
                    lemma_leave(server, pid, rid, Some(gid));
                },
                crate::caro_protocol::InGameRequest::PlayerRequestContext => {
                    lemma_response_context(server, pid);
                },
                _ => {},
            }
            assert(server.after_in_game(pid, code) == handled.after_in_game_tail(pid, rid, gid, code));
            lemma_in_game_tail(handled, pid, rid, gid, code);
        },
        _ => {},
    }
}

/// The part of a request that is handled in every state keeps consistency.
proof fn lemma_general(server: ServerModel, pid: PlayerId, code: PlayerCode)
    requires
        server.wf(),
        consistent(server),
    ensures
        consistent(server.after_general(pid, code)),
        !(code is General) ==> server.after_general(pid, code) == server,
{
    match code {
        PlayerCode::General(crate::caro_protocol::GeneralRequest::PlayerExitApplication) => {
            law_clean_keeps_consistency(server, pid);
        },
        PlayerCode::General(crate::caro_protocol::GeneralRequest::PlayerRequestState) => {},
        PlayerCode::General(crate::caro_protocol::GeneralRequest::IAmAlive) => {
            let marked = server.marked_alive(pid);
            assert(marked.players.dom() =~= server.players.dom());
            lemma_same_seating(server, marked);
        },
        _ => {},
    }
}

/// Every request keeps a consistent server consistent: after it, as before,
/// every taken seat holds a registered player, nobody sits in two seats, no
/// room is empty, the players that are logged in and in no room are exactly
/// those that no room seats, and every room has a game.
pub proof fn law_request_keeps_consistency(server: ServerModel, pid: PlayerId, code: PlayerCode)
    requires
        server.wf(),
        consistent(server),
    ensures
        consistent(server.after_request(pid, code)),
{
    if server.players.contains_key(pid) {
        lemma_general(server, pid, code);
        if !(code is General) {
            match server.players[pid].state {
                PlayerState::Logged(ConnectState::Connected) => {
                    lemma_logged(server, pid, code);
                },
                PlayerState::InRoom(ConnectState::Connected) => {
                    lemma_in_room(server, pid, code);
                },
                PlayerState::InGame(ConnectState::Connected) => {
                    lemma_in_game(server, pid, code);
                },
                _ => {},
            }
        }
    }
}

/// A server without rooms, whoever is registered and logged in, is consistent.
pub proof fn law_server_without_rooms_is_consistent(server: ServerModel)
    requires
        server.rooms == Map::<RoomId, GameRoom>::empty(),
        forall|pid: PlayerId| server.players.contains_key(pid) ==> server.players[pid].state is Logged,
    ensures
        consistent(server),
{
}

/// Registering a player keeps consistency.
pub proof fn law_new_player_keeps_consistency(server: ServerModel, pid: PlayerId)
    requires
        server.wf(),
        consistent(server),
        pid != NO_ID,
        !server.players.contains_key(pid),
    ensures
        consistent(ServerModel { players: server.players.insert(pid, Player::spec_new()), ..server }),
{
    let after = ServerModel { players: server.players.insert(pid, Player::spec_new()), ..server };
    assert forall|r: RoomId| #[trigger] after.rooms.contains_key(r) implies seats_in_order(
        after.players,
        after.rooms[r],
    ) by {
        assert(seats_in_order(server.players, server.rooms[r]));
    }
    assert forall|p: PlayerId| #[trigger] after.players.contains_key(p) implies (after.players[p].state is Logged
        <==> no_room_of(after.rooms, p)) by {
        if p == pid {
            assert forall|r: RoomId| after.rooms.contains_key(r) implies !after.rooms[r].seats(pid) by {
                assert(seats_in_order(server.players, server.rooms[r]));
            }
        } else {
            assert(server.players.contains_key(p));
        }
    }
}


/// The part of a request that is handled in every state keeps a well-formed
/// server well formed.
proof fn lemma_wf_general(server: ServerModel, pid: PlayerId, code: PlayerCode)
    requires
        server.wf(),
    ensures
        server.after_general(pid, code).wf(),
{
    match code {
        PlayerCode::General(crate::caro_protocol::GeneralRequest::PlayerExitApplication) => {
            lemma_wf_clean(server, pid);
        },
        _ => {},
    }
}

/// Tearing a player down keeps a well-formed server well formed.
proof fn lemma_wf_clean(server: ServerModel, pid: PlayerId)
    requires
        server.wf(),
    ensures
        server.after_clean(pid).wf(),
{
    match first_room_of(server.rooms, pid) {
        Some(rid) => {
            let chosen = choose|r: RoomId| is_first_room_of(server.rooms, pid, r);
            assert(is_first_room_of(server.rooms, pid, chosen));
        },
        None => {},
    }
}

/// What follows a room's becoming full keeps a well-formed server well formed.
proof fn lemma_wf_room_full(server: ServerModel, rid: RoomId)
    requires
        server.wf(),
    ensures
        server.after_room_full(rid).wf(),
{
    match first_game_of(server.games, rid) {
        Some(gid) => {
            let first = choose|g: GameId| is_first_game_of(server.games, rid, g);
            assert(is_first_game_of(server.games, rid, first));
            crate::game_manager::lemma_game_steps_keep_wf(
                server.games[gid],
                crate::game_manager::PlayerOrder::Player1,
                PlayerCode::General(crate::caro_protocol::GeneralRequest::IAmAlive),
            );
        },
        None => {},
    }
}

/// The requests of a logged-in player keep a well-formed server well formed.
proof fn lemma_wf_logged(server: ServerModel, pid: PlayerId, code: PlayerCode)
    requires
        server.wf(),
    ensures
        server.after_logged(pid, code).wf(),
{
    match code {
        PlayerCode::Logged(crate::caro_protocol::LoggedRequest::RequestRoomAsPlayer1(rule)) => {
            let rid = server.next_room_id();
            if rid != NO_ID {
                crate::id_pool::lemma_smallest_free_exists(server.room_ids, i32::MAX as int);
                let roomed = server.with_new_room(rule).seated(rid, crate::room_manager::PlayerOrder::Player1(pid));
                assert(roomed.wf());
                let gid = roomed.next_game_id();
                if gid != NO_ID {
                    crate::id_pool::lemma_smallest_free_exists(server.game_ids, i32::MAX as int);
                    let ready = roomed.with_new_game(rid, rule).with_state(
                        pid,
                        PlayerState::InRoom(ConnectState::Connected),
                    ).respond(
                        pid,
                        crate::caro_protocol::ServerCodeView::Logged(
                            crate::caro_protocol::LoggedResponse::JoinedRoomAsPlayer1(rid),
                        ),
                    );
                    assert(GameModel::created(rid, rule).wf());
                    assert(ready.wf());
                    lemma_wf_room_full(ready, rid);
                }
            }
        },
        PlayerCode::Logged(crate::caro_protocol::LoggedRequest::JoinRoom(rid)) => {
            if server.rooms.contains_key(rid) && !server.rooms[rid].spec_is_full() {
                let joined = server.seated(rid, ServerModel::seat_for(server.rooms[rid], pid)).with_state(
                    pid,
                    PlayerState::InRoom(ConnectState::Connected),
                );
                let answered = joined.respond(
                    pid,
                    crate::caro_protocol::ServerCodeView::Logged(
                        ServerModel::join_answer(joined.rooms[rid], rid, pid),
                    ),
                );
                assert(answered.wf());
                lemma_wf_room_full(answered, rid);
            }
        },
        _ => {},
    }
}

/// The requests of a player that waits in a room keep a well-formed server
/// well formed.
proof fn lemma_wf_in_room(server: ServerModel, pid: PlayerId, code: PlayerCode)
    requires
        server.wf(),
    ensures
        server.after_in_room(pid, code).wf(),
{
    match first_room_of(server.rooms, pid) {
        Some(rid) => {
            let chosen = choose|r: RoomId| is_first_room_of(server.rooms, pid, r);
            assert(is_first_room_of(server.rooms, pid, chosen));
        },
        None => {},
    }
}

/// The requests of a player in a game keep a well-formed server well formed.
proof fn lemma_wf_in_game(server: ServerModel, pid: PlayerId, code: PlayerCode)
    requires
        server.wf(),
    ensures
        server.after_in_game(pid, code).wf(),
{
    match code {
        PlayerCode::InGame(request) => {
            match first_room_of(server.rooms, pid) {
                Some(rid) => {
                    let chosen = choose|r: RoomId| is_first_room_of(server.rooms, pid, r);
                    assert(is_first_room_of(server.rooms, pid, chosen));
                    match first_game_of(server.games, rid) {
                        Some(gid) => {
                            let first = choose|g: GameId| is_first_game_of(server.games, rid, g);
                            assert(is_first_game_of(server.games, rid, first));
                            let handled = match request {
                                crate::caro_protocol::InGameRequest::PlayerLeaveRoom => after_leave(
                                    server,
                                    pid,
                                    rid,
                                    Some(gid),
                                ),
                                crate::caro_protocol::InGameRequest::PlayerRequestContext => server.after_response_context(
                                    pid,
                                ),
                                _ => server,
                            };
                            assert(handled.wf());
                            assert(server.after_in_game(pid, code) == handled.after_in_game_tail(
                                pid,
                                rid,
                                gid,
                                code,
                            ));
                            if handled.rooms.contains_key(rid) && handled.games.contains_key(gid) {
                                match ServerModel::order_in(handled.rooms[rid], pid) {
                                    Some(order) => {
                                        crate::game_manager::lemma_game_steps_keep_wf(
                                            handled.games[gid],
                                            order,
                                            code,
                                        );
                                    },
                                    None => {},
                                }
                            }
                        },
                        None => {},
                    }
                },
                None => {},
            }
        },
        _ => {},
    }
}

/// Every request keeps a well-formed server well formed.
pub proof fn law_request_keeps_wf(server: ServerModel, pid: PlayerId, code: PlayerCode)
    requires
        server.wf(),
    ensures
        server.after_request(pid, code).wf(),
{
    if server.players.contains_key(pid) {
        lemma_wf_general(server, pid, code);
        let general = server.after_general(pid, code);
        lemma_wf_logged(general, pid, code);
        lemma_wf_in_room(general, pid, code);
        lemma_wf_in_game(general, pid, code);
    }
}


/// Tearing a player down twice is the same as tearing it down once, where the
/// registries agree with each other.
pub proof fn law_clean_is_idempotent(server: ServerModel, pid: PlayerId)
    requires
        server.wf(),
        consistent(server),
    ensures
        server.after_clean(pid).after_clean(pid) == server.after_clean(pid),
{
    let once = server.after_clean(pid);
    law_clean_keeps_consistency(server, pid);
    lemma_wf_clean(server, pid);
    assert(!once.players.contains_key(pid));
    match first_room_of(once.rooms, pid) {
        Some(rid) => {
            let chosen = choose|r: RoomId| is_first_room_of(once.rooms, pid, r);
            assert(is_first_room_of(once.rooms, pid, chosen));
            assert(seats_in_order(once.players, once.rooms[rid]));
            // Only a free seat can equal `pid` now, so `pid` names no player.
            assert(pid == NO_ID);
            assert(once.rooms[rid].spec_remove_player(pid) == once.rooms[rid]);
            assert(once.unseated(rid, pid).rooms =~= once.rooms);
        },
        None => {},
    }
    let twice = once.after_clean(pid);
    assert(twice.rooms =~= once.rooms);
    assert(twice.players =~= once.players);
    assert(twice.player_ids =~= once.player_ids);
}

} // verus!
