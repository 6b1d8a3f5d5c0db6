use simple_caro_app::caro_protocol::{
    ConnectState, GameContext, GameRule, GameState, GeneralRequest, GeneralResponse, GenericCode,
    InGameRequest, InGameResponse, InRoomRequest, InRoomResponse, LoggedRequest, LoggedResponse,
    PlayerCode, PlayerOrder, PlayerState, ServerCode,
};
use simple_caro_app::client_request_executor::RequestExecutor;
use simple_caro_app::game_manager::GameContainer;
use simple_caro_app::id_pool::{IdPool, NO_ID};
use simple_caro_app::player_manager::PlayerContainer;
use simple_caro_app::room_manager::RoomContainer;

fn server_of(max_players: usize, max_rooms: usize, max_games: usize) -> RequestExecutor {
    RequestExecutor::new(
        PlayerContainer::new(max_players, IdPool::<i32>::new()),
        RoomContainer::new(max_rooms, IdPool::<i32>::new()),
        GameContainer::new(max_games, IdPool::<i32>::new()),
    )
}

fn server() -> RequestExecutor {
    server_of(256, 256, 256)
}

/// The messages that wait, as pairs of receiver and server code; empties the queue.
fn sent(server: &mut RequestExecutor) -> Vec<(i32, ServerCode)> {
    server
        .take_pending()
        .into_iter()
        .map(|(pid, packet)| match packet.code() {
            GenericCode::Server(code) => (pid, code),
            GenericCode::Player(code) => panic!("the server queued a player code: {:?}", code),
        })
        .collect()
}

fn create(rule: GameRule) -> PlayerCode {
    PlayerCode::Logged(LoggedRequest::RequestRoomAsPlayer1(rule))
}

fn join(rid: i32) -> PlayerCode {
    PlayerCode::Logged(LoggedRequest::JoinRoom(rid))
}

fn game_move(latitude: i64, longtitude: i64) -> PlayerCode {
    PlayerCode::InGame(InGameRequest::PlayerMove((latitude, longtitude)))
}

fn full(rid: i32) -> ServerCode {
    ServerCode::InRoom(InRoomResponse::YourRoomIsFull(rid))
}

fn context(
    player1_moves: Vec<(i64, i64)>,
    player2_moves: Vec<(i64, i64)>,
    game_state: GameState,
    receiver_order: PlayerOrder,
) -> ServerCode {
    ServerCode::InGame(InGameResponse::Context(GameContext {
        board_height: 3,
        board_width: 3,
        player1_move_history: player1_moves,
        player2_move_history: player2_moves,
        player1_undone_moves: vec![],
        player2_undone_moves: vec![],
        game_state,
        player1_connection_state: ConnectState::Connected,
        player2_connection_state: ConnectState::Connected,
        receiver_order,
    }))
}

/// A server with players 1 and 2 in a started game of tic-tac-toe in room 1.
fn server_in_game() -> RequestExecutor {
    let mut server = server();
    assert_eq!(server.add_player(), 1);
    assert_eq!(server.add_player(), 2);
    server.execute_request(1, create(GameRule::TicTacToe));
    server.execute_request(2, join(1));
    sent(&mut server);
    server
}

#[test]
fn request_of_an_unknown_player_is_ignored() {
    let mut server = server();
    server.execute_request(1, create(GameRule::TicTacToe));
    server.execute_request(NO_ID, PlayerCode::General(GeneralRequest::PlayerRequestState));
    assert!(sent(&mut server).is_empty());
    assert!(!server.room_manager().room_exist(1));
}

#[test]
fn state_request_is_answered_in_every_phase() {
    let mut server = server();
    let pid = server.add_player();
    server.execute_request(pid, PlayerCode::General(GeneralRequest::PlayerRequestState));
    server.execute_request(pid, create(GameRule::TicTacToe));
    server.execute_request(pid, PlayerCode::General(GeneralRequest::PlayerRequestState));
    server.set_connection_state(pid, ConnectState::Disconnected);
    server.execute_request(pid, PlayerCode::General(GeneralRequest::PlayerRequestState));
    assert_eq!(
        sent(&mut server),
        vec![
            (pid, ServerCode::General(GeneralResponse::State(PlayerState::Logged(ConnectState::Connected)))),
            (pid, ServerCode::Logged(LoggedResponse::JoinedRoomAsPlayer1(1))),
            (pid, ServerCode::General(GeneralResponse::State(PlayerState::InRoom(ConnectState::Connected)))),
            (pid, ServerCode::General(GeneralResponse::State(PlayerState::InRoom(ConnectState::Disconnected)))),
        ]
    );
}

#[test]
fn liveness_answer_marks_the_player() {
    let mut server = server();
    let pid = server.add_player();
    assert!(server.send_checkalive_message(pid));
    assert!(!server.player_manager().is_responsed_to_checkalive(pid));
    server.execute_request(pid, PlayerCode::General(GeneralRequest::IAmAlive));
    assert!(server.player_manager().is_responsed_to_checkalive(pid));
    assert_eq!(sent(&mut server), vec![(pid, ServerCode::General(GeneralResponse::AreYouAlive))]);
    assert!(!server.send_checkalive_message(77));
}

#[test]
fn created_room_has_one_occupant_and_is_not_full() {
    let mut server = server();
    let pid = server.add_player();
    server.execute_request(pid, create(GameRule::TicTacToe));
    assert_eq!(sent(&mut server), vec![(pid, ServerCode::Logged(LoggedResponse::JoinedRoomAsPlayer1(1)))]);
    assert_eq!(server.room_manager().get_pids_in_room(1), Some((pid, NO_ID)));
    assert!(!server.room_manager().room_full(1));
    assert!(!server.room_manager().room_empty(1));
    assert_eq!(server.room_manager().get_rule_in_room(1), Some(GameRule::TicTacToe));
    assert_eq!(
        server.player_manager().get_player_state(pid),
        Some(PlayerState::InRoom(ConnectState::Connected))
    );
    assert_eq!(server.game_manager().find_game_contain_room(1), Some(1));
    let game = server.game_manager().get_context_in_game(1).unwrap();
    assert_eq!(game.game_state, GameState::NotInprogress);
    assert_eq!((game.board_height, game.board_width), (3, 3));
}

#[test]
fn room_is_not_created_when_the_rooms_are_at_capacity() {
    let mut server = server_of(8, 1, 8);
    let first = server.add_player();
    let second = server.add_player();
    server.execute_request(first, create(GameRule::TicTacToe));
    server.execute_request(second, create(GameRule::TicTacToe));
    assert_eq!(
        sent(&mut server),
        vec![
            (first, ServerCode::Logged(LoggedResponse::JoinedRoomAsPlayer1(1))),
            (second, ServerCode::Logged(LoggedResponse::FailedToCreateRoom)),
        ]
    );
    assert!(!server.room_manager().room_exist(2));
    assert_eq!(
        server.player_manager().get_player_state(second),
        Some(PlayerState::Logged(ConnectState::Connected))
    );
}

#[test]
fn room_is_not_kept_when_the_games_are_at_capacity() {
    let mut server = server_of(8, 8, 1);
    let first = server.add_player();
    let second = server.add_player();
    server.execute_request(first, create(GameRule::TicTacToe));
    server.execute_request(second, create(GameRule::FiveBlockTwo));
    assert_eq!(
        sent(&mut server),
        vec![
            (first, ServerCode::Logged(LoggedResponse::JoinedRoomAsPlayer1(1))),
            (second, ServerCode::Logged(LoggedResponse::FailedToCreateRoom)),
        ]
    );
    assert!(!server.room_manager().room_exist(2));
    assert_eq!(server.room_manager().find_room_contain_player(second), None);
    assert_eq!(
        server.player_manager().get_player_state(second),
        Some(PlayerState::Logged(ConnectState::Connected))
    );
    // The id of the room that was not kept is free again.
    server.execute_request(first, PlayerCode::InRoom(InRoomRequest::PlayerLeaveRoom));
    server.execute_request(first, PlayerCode::General(GeneralRequest::PlayerExitApplication));
    assert!(!server.room_manager().room_exist(1));
}

#[test]
fn second_player_fills_the_room_and_both_are_in_game() {
    let mut server = server();
    let host = server.add_player();
    let guest = server.add_player();
    server.execute_request(host, create(GameRule::TicTacToe));
    sent(&mut server);
    server.execute_request(guest, join(1));
    assert_eq!(
        sent(&mut server),
        vec![
            (guest, ServerCode::Logged(LoggedResponse::JoinedRoomAsPlayer2(1))),
            (host, full(1)),
            (guest, full(1)),
        ]
    );
    assert!(server.room_manager().room_full(1));
    assert_eq!(server.room_manager().get_pids_in_room(1), Some((host, guest)));
    assert_eq!(
        server.player_manager().get_player_state(host),
        Some(PlayerState::InGame(ConnectState::Connected))
    );
    assert_eq!(
        server.player_manager().get_player_state(guest),
        Some(PlayerState::InGame(ConnectState::Connected))
    );
    assert_eq!(
        server.game_manager().get_context_in_game(1).unwrap().game_state,
        GameState::Player1Turn
    );
}

#[test]
fn joining_a_room_that_does_not_exist_fails_without_a_change() {
    let mut server = server();
    let pid = server.add_player();
    server.execute_request(pid, join(5));
    assert_eq!(sent(&mut server), vec![(pid, ServerCode::Logged(LoggedResponse::FailedToJoinRoom(5)))]);
    assert!(!server.room_manager().room_exist(5));
    assert_eq!(
        server.player_manager().get_player_state(pid),
        Some(PlayerState::Logged(ConnectState::Connected))
    );
}

#[test]
fn joining_a_full_room_fails_without_a_change() {
    let mut server = server_in_game();
    let third = server.add_player();
    server.execute_request(third, join(1));
    assert_eq!(sent(&mut server), vec![(third, ServerCode::Logged(LoggedResponse::FailedToJoinRoom(1)))]);
    assert_eq!(server.room_manager().get_pids_in_room(1), Some((1, 2)));
    assert_eq!(
        server.player_manager().get_player_state(third),
        Some(PlayerState::Logged(ConnectState::Connected))
    );
}

#[test]
fn join_from_a_player_in_game_changes_nothing_and_is_not_answered() {
    let mut server = server_in_game();
    let third = server.add_player();
    server.execute_request(third, create(GameRule::TicTacToe));
    sent(&mut server);
    server.execute_request(1, join(2));
    assert!(sent(&mut server).is_empty());
    assert_eq!(server.room_manager().get_pids_in_room(1), Some((1, 2)));
    assert_eq!(server.room_manager().get_pids_in_room(2), Some((third, NO_ID)));
    assert_eq!(
        server.player_manager().get_player_state(1),
        Some(PlayerState::InGame(ConnectState::Connected))
    );
}

#[test]
fn requests_of_another_phase_are_dropped() {
    let mut server = server();
    let pid = server.add_player();
    server.execute_request(pid, game_move(0, 0));
    server.execute_request(pid, PlayerCode::InRoom(InRoomRequest::PlayerLeaveRoom));
    server.execute_request(pid, PlayerCode::InGame(InGameRequest::PlayerLeaveRoom));
    assert!(sent(&mut server).is_empty());
    server.execute_request(pid, create(GameRule::TicTacToe));
    sent(&mut server);
    server.execute_request(pid, create(GameRule::TicTacToe));
    server.execute_request(pid, game_move(0, 0));
    server.execute_request(pid, PlayerCode::InGame(InGameRequest::PlayerRequestContext));
    assert!(sent(&mut server).is_empty());
    assert!(!server.room_manager().room_exist(2));
    assert_eq!(server.room_manager().get_pids_in_room(1), Some((pid, NO_ID)));
}

#[test]
fn disconnected_player_is_served_general_requests_only() {
    let mut server = server();
    let pid = server.add_player();
    server.set_connection_state(pid, ConnectState::Disconnected);
    server.execute_request(pid, create(GameRule::TicTacToe));
    assert!(sent(&mut server).is_empty());
    assert!(!server.room_manager().room_exist(1));
    server.execute_request(pid, PlayerCode::General(GeneralRequest::IAmAlive));
    assert!(server.player_manager().is_responsed_to_checkalive(pid));
}

#[test]
fn legal_move_switches_the_turn_and_reaches_both_occupants() {
    let mut server = server_in_game();
    server.execute_request(1, game_move(0, 0));
    assert_eq!(
        sent(&mut server),
        vec![
            (1, context(vec![(0, 0)], vec![], GameState::Player2Turn, PlayerOrder::Player1)),
            (2, context(vec![(0, 0)], vec![], GameState::Player2Turn, PlayerOrder::Player2)),
        ]
    );
    server.execute_request(2, game_move(1, 1));
    assert_eq!(
        sent(&mut server),
        vec![
            (1, context(vec![(0, 0)], vec![(1, 1)], GameState::Player1Turn, PlayerOrder::Player1)),
            (2, context(vec![(0, 0)], vec![(1, 1)], GameState::Player1Turn, PlayerOrder::Player2)),
        ]
    );
}

#[test]
fn move_out_of_turn_leaves_board_and_histories_unchanged() {
    let mut server = server_in_game();
    server.execute_request(2, game_move(0, 0));
    assert_eq!(
        sent(&mut server),
        vec![
            (1, context(vec![], vec![], GameState::Player1Turn, PlayerOrder::Player1)),
            (2, context(vec![], vec![], GameState::Player1Turn, PlayerOrder::Player2)),
        ]
    );
}

#[test]
fn scenario_create_join_move_and_occupied_tile() {
    let mut server = server();
    let a = server.add_player();
    let b = server.add_player();
    server.execute_request(a, create(GameRule::TicTacToe));
    assert_eq!(sent(&mut server), vec![(a, ServerCode::Logged(LoggedResponse::JoinedRoomAsPlayer1(1)))]);
    server.execute_request(b, join(1));
    assert_eq!(
        sent(&mut server),
        vec![(b, ServerCode::Logged(LoggedResponse::JoinedRoomAsPlayer2(1))), (a, full(1)), (b, full(1))]
    );
    server.execute_request(a, game_move(0, 0));
    let after_first_move = sent(&mut server);
    assert_eq!(
        after_first_move,
        vec![
            (a, context(vec![(0, 0)], vec![], GameState::Player2Turn, PlayerOrder::Player1)),
            (b, context(vec![(0, 0)], vec![], GameState::Player2Turn, PlayerOrder::Player2)),
        ]
    );
    server.execute_request(b, game_move(0, 0));
    assert_eq!(sent(&mut server), after_first_move);
}

#[test]
fn context_request_answers_the_requester_and_then_both() {
    let mut server = server_in_game();
    server.execute_request(2, PlayerCode::InGame(InGameRequest::PlayerRequestContext));
    assert_eq!(
        sent(&mut server),
        vec![
            (2, context(vec![], vec![], GameState::Player1Turn, PlayerOrder::Player2)),
            (1, context(vec![], vec![], GameState::Player1Turn, PlayerOrder::Player1)),
            (2, context(vec![], vec![], GameState::Player1Turn, PlayerOrder::Player2)),
        ]
    );
}

#[test]
fn undo_and_redo_travel_through_the_dispatcher() {
    let mut server = server_in_game();
    server.execute_request(1, game_move(2, 2));
    let after_move = sent(&mut server);
    server.execute_request(1, PlayerCode::InGame(InGameRequest::PlayerUndo));
    let after_undo = sent(&mut server);
    assert_eq!(after_undo.len(), 2);
    match &after_undo[0].1 {
        ServerCode::InGame(InGameResponse::Context(context)) => {
            assert!(context.player1_move_history.is_empty());
            assert_eq!(context.player1_undone_moves, vec![(2, 2)]);
            assert_eq!(context.game_state, GameState::Player1Turn);
        }
        other => panic!("not a context: {:?}", other),
    }
    server.execute_request(1, PlayerCode::InGame(InGameRequest::PlayerRedo));
    assert_eq!(sent(&mut server), after_move);
}

#[test]
fn winning_move_ends_the_game_in_the_context() {
    let mut server = server_in_game();
    for (pid, latitude, longtitude) in [(1, 0, 0), (2, 1, 0), (1, 0, 1), (2, 1, 1)] {
        server.execute_request(pid, game_move(latitude, longtitude));
    }
    sent(&mut server);
    server.execute_request(1, game_move(0, 2));
    assert_eq!(
        sent(&mut server),
        vec![
            (
                1,
                context(
                    vec![(0, 0), (0, 1), (0, 2)],
                    vec![(1, 0), (1, 1)],
                    GameState::Player1Won,
                    PlayerOrder::Player1
                )
            ),
            (
                2,
                context(
                    vec![(0, 0), (0, 1), (0, 2)],
                    vec![(1, 0), (1, 1)],
                    GameState::Player1Won,
                    PlayerOrder::Player2
                )
            ),
        ]
    );
}

#[test]
fn context_shows_a_disconnected_opponent() {
    let mut server = server_in_game();
    server.set_connection_state(2, ConnectState::Disconnected);
    server.execute_request(1, game_move(1, 1));
    let messages = sent(&mut server);
    assert_eq!(messages.len(), 2);
    for (_, code) in &messages {
        match code {
            ServerCode::InGame(InGameResponse::Context(context)) => {
                assert_eq!(context.player1_connection_state, ConnectState::Connected);
                assert_eq!(context.player2_connection_state, ConnectState::Disconnected);
            }
            other => panic!("not a context: {:?}", other),
        }
    }
    server.execute_request(2, game_move(0, 0));
    assert!(sent(&mut server).is_empty());
}

#[test]
fn leaving_a_waiting_room_removes_the_room_and_keeps_its_game() {
    let mut server = server();
    let pid = server.add_player();
    server.execute_request(pid, create(GameRule::TicTacToe));
    sent(&mut server);
    server.execute_request(pid, PlayerCode::InRoom(InRoomRequest::PlayerLeaveRoom));
    assert!(sent(&mut server).is_empty());
    assert!(!server.room_manager().room_exist(1));
    assert_eq!(server.game_manager().find_game_contain_room(1), Some(1));
    assert_eq!(
        server.player_manager().get_player_state(pid),
        Some(PlayerState::Logged(ConnectState::Connected))
    );
    server.execute_request(pid, create(GameRule::FiveBlockTwo));
    assert_eq!(sent(&mut server), vec![(pid, ServerCode::Logged(LoggedResponse::JoinedRoomAsPlayer1(1)))]);
    assert_eq!(server.room_manager().get_rule_in_room(1), Some(GameRule::FiveBlockTwo));
}

#[test]
fn leaving_a_game_keeps_the_room_for_the_other_player() {
    let mut server = server_in_game();
    server.execute_request(1, PlayerCode::InGame(InGameRequest::PlayerLeaveRoom));
    assert!(sent(&mut server).is_empty());
    assert_eq!(server.room_manager().get_pids_in_room(1), Some((NO_ID, 2)));
    assert_eq!(server.game_manager().find_game_contain_room(1), Some(1));
    assert_eq!(
        server.player_manager().get_player_state(1),
        Some(PlayerState::Logged(ConnectState::Connected))
    );
    assert_eq!(
        server.player_manager().get_player_state(2),
        Some(PlayerState::InGame(ConnectState::Connected))
    );
}

#[test]
fn last_player_leaving_a_game_removes_room_and_game() {
    let mut server = server_in_game();
    server.execute_request(1, PlayerCode::InGame(InGameRequest::PlayerLeaveRoom));
    server.execute_request(2, PlayerCode::InGame(InGameRequest::PlayerLeaveRoom));
    assert!(sent(&mut server).is_empty());
    assert!(!server.room_manager().room_exist(1));
    assert_eq!(server.game_manager().find_game_contain_room(1), None);
    assert_eq!(server.game_manager().get_context_in_game(1), None);
}

#[test]
fn a_newcomer_takes_the_seat_that_a_leaver_left() {
    let mut server = server_in_game();
    server.execute_request(1, PlayerCode::InGame(InGameRequest::PlayerLeaveRoom));
    let third = server.add_player();
    server.execute_request(third, join(1));
    assert_eq!(
        sent(&mut server),
        vec![
            (third, ServerCode::Logged(LoggedResponse::JoinedRoomAsPlayer1(1))),
            (third, full(1)),
            (2, full(1)),
        ]
    );
    assert_eq!(server.room_manager().get_pids_in_room(1), Some((third, 2)));
    assert_eq!(
        server.player_manager().get_player_state(third),
        Some(PlayerState::InGame(ConnectState::Connected))
    );
}

#[test]
fn exit_tears_the_player_down_with_an_empty_room_and_its_game() {
    let mut server = server();
    let pid = server.add_player();
    server.execute_request(pid, create(GameRule::TicTacToe));
    sent(&mut server);
    server.execute_request(pid, PlayerCode::General(GeneralRequest::PlayerExitApplication));
    assert!(sent(&mut server).is_empty());
    assert!(!server.player_manager().player_exist(pid));
    assert!(!server.room_manager().room_exist(1));
    assert_eq!(server.game_manager().get_context_in_game(1), None);
    assert_eq!(server.add_player(), pid);
}

#[test]
fn clean_player_existence_keeps_a_room_that_is_not_empty() {
    let mut server = server_in_game();
    server.clean_player_existence(2);
    assert!(!server.player_manager().player_exist(2));
    assert_eq!(server.room_manager().get_pids_in_room(1), Some((1, NO_ID)));
    assert!(server.game_manager().get_context_in_game(1).is_some());
    server.clean_player_existence(1);
    assert!(!server.player_manager().player_exist(1));
    assert!(!server.room_manager().room_exist(1));
    assert_eq!(server.game_manager().get_context_in_game(1), None);
}

#[test]
fn clean_player_existence_is_harmless_when_repeated() {
    let mut server = server_in_game();
    server.clean_player_existence(1);
    server.clean_player_existence(1);
    server.clean_player_existence(40);
    assert!(!server.player_manager().player_exist(1));
    assert_eq!(server.room_manager().get_pids_in_room(1), Some((NO_ID, 2)));
    assert!(server.player_manager().player_exist(2));
}

#[test]
fn registry_of_players_is_bounded() {
    let mut server = server_of(2, 8, 8);
    assert_eq!(server.add_player(), 1);
    assert_eq!(server.add_player(), 2);
    assert_eq!(server.add_player(), NO_ID);
    server.clean_player_existence(1);
    assert_eq!(server.add_player(), 1);
}
