use simple_caro_app::caro_protocol::{
    ConnectState, GameContext, GameRule, GameState, GeneralRequest, GeneralResponse, InGameRequest,
    InGameResponse, InRoomResponse, LoggedRequest, LoggedResponse, PlayerCode, PlayerOrder, PlayerState,
    ServerCode,
};
use simple_caro_app::global_state::GolbalState;
use simple_caro_app::id_pool::NO_ID;
use simple_caro_app::input_from_user::{
    GeneralCommand, InGameCommand, InRoomCommand, LoggedCommand, UserCommand,
};
use simple_caro_app::caro_protocol::TileState;
use simple_caro_app::screen_manager::{
    context_rows, moves_on_board, prompt_position, screen_type, BoardManager, ScreenType, BOARD_HEIGHT,
    BOARD_WIDTH, LATITUDE_LIMIT, LONGTITUDE_LIMIT, SCREEN_HEIGHT, SCREEN_WIDTH,
};
use simple_caro_app::server_response_executor::{ClientAction, LogContent, ResponseExecutor};
use simple_caro_app::user_command_executor::CommandExecutor;

fn state_in(player_state: PlayerState) -> GolbalState {
    let mut state = GolbalState::new();
    state.set_player_state(player_state);
    state
}

fn sample_context() -> GameContext {
    GameContext {
        board_height: 3,
        board_width: 3,
        player1_move_history: vec![(0, 0), (2, 1)],
        player2_move_history: vec![(1, 1)],
        player1_undone_moves: vec![],
        player2_undone_moves: vec![],
        game_state: GameState::Player2Turn,
        player1_connection_state: ConnectState::Connected,
        player2_connection_state: ConnectState::Connected,
        receiver_order: PlayerOrder::Player1,
    }
}

#[test]
fn screens_and_prompts_follow_the_phase() {
    for connection in [ConnectState::Connected, ConnectState::Disconnected] {
        assert_eq!(screen_type(PlayerState::Logged(connection)), ScreenType::Menu);
        assert_eq!(screen_type(PlayerState::InRoom(connection)), ScreenType::InRoom);
        assert_eq!(screen_type(PlayerState::InGame(connection)), ScreenType::InGame);
        assert_eq!(prompt_position(PlayerState::Logged(connection)), (17, 63));
        assert_eq!(prompt_position(PlayerState::InRoom(connection)), (17, 63));
        assert_eq!(prompt_position(PlayerState::InGame(connection)), (35, 63));
    }
}

#[test]
fn new_board_shows_the_first_rows_and_columns() {
    let board = BoardManager::new();
    assert_eq!(board.get_vertical_range(), (0, BOARD_HEIGHT - 1));
    assert_eq!(board.get_horizontal_range(), (0, BOARD_WIDTH - 1));
    assert_eq!(board.get_vertical_range(), (0, 14));
    assert_eq!(board.get_horizontal_range(), (0, 24));
    assert_eq!(board.get_cursor_pos(), (0, 0));
    assert_eq!(board.get_last_opp_move(), None);
    assert_eq!(board.get_player_order(), PlayerOrder::Player1);
}

#[test]
fn cursor_inside_the_visible_part_does_not_scroll() {
    let mut board = BoardManager::new();
    board.set_cursor_pos(14, 24);
    assert_eq!(board.get_cursor_pos(), (14, 24));
    assert_eq!(board.get_vertical_range(), (0, 14));
    assert_eq!(board.get_horizontal_range(), (0, 24));
}

#[test]
fn cursor_past_the_end_scrolls_forward() {
    let mut board = BoardManager::new();
    board.set_cursor_pos(15, 30);
    assert_eq!(board.get_cursor_pos(), (15, 30));
    assert_eq!(board.get_vertical_range(), (1, 15));
    assert_eq!(board.get_horizontal_range(), (6, 30));
}

#[test]
fn cursor_before_the_start_scrolls_back() {
    let mut board = BoardManager::new();
    board.set_cursor_pos(100, 200);
    assert_eq!(board.get_vertical_range(), (86, 100));
    assert_eq!(board.get_horizontal_range(), (176, 200));
    board.set_cursor_pos(50, 60);
    assert_eq!(board.get_cursor_pos(), (50, 60));
    assert_eq!(board.get_vertical_range(), (50, 64));
    assert_eq!(board.get_horizontal_range(), (60, 84));
}

#[test]
fn cursor_is_kept_within_the_limits() {
    let mut board = BoardManager::new();
    board.set_cursor_pos(-5, i64::MIN);
    assert_eq!(board.get_cursor_pos(), (0, 0));
    board.set_cursor_pos(5000, i64::MAX);
    assert_eq!(board.get_cursor_pos(), (LATITUDE_LIMIT as i64, LONGTITUDE_LIMIT as i64));
    assert_eq!(board.get_vertical_range(), (1010, 1024));
    assert_eq!(board.get_horizontal_range(), (1000, 1024));
}

#[test]
fn ranges_near_the_limit_keep_their_length() {
    let mut board = BoardManager::new();
    board.set_cursor_pos(1024, 1024);
    board.set_cursor_pos(1005, 990);
    assert_eq!(board.get_vertical_range(), (1005, 1019));
    assert_eq!(board.get_horizontal_range(), (990, 1014));
    board.set_cursor_pos(1024, 1024);
    board.set_cursor_pos(1015, 1010);
    assert_eq!(board.get_vertical_range(), (1010, 1024));
    assert_eq!(board.get_horizontal_range(), (1000, 1024));
    board.set_cursor_pos(1009, 999);
    board.set_cursor_pos(1024, 1024);
    board.set_cursor_pos(1012, 1015);
    assert_eq!(board.get_vertical_range(), (1010, 1024));
    let mut board = BoardManager::new();
    board.set_cursor_pos(1024, 1024);
    board.set_cursor_pos(0, 0);
    board.set_cursor_pos(1020, 1020);
    board.set_cursor_pos(1018, 1001);
    assert_eq!(board.get_vertical_range(), (1006, 1020));
    assert_eq!(board.get_horizontal_range(), (996, 1020));
}

#[test]
fn opponents_latest_move_is_remembered() {
    let mut board = BoardManager::new();
    board.update_move_set(vec![(0, 0)], vec![]);
    assert_eq!(board.get_last_opp_move(), None);
    board.update_move_set(vec![(0, 0)], vec![(1, 1), (2, 2)]);
    assert_eq!(board.get_last_opp_move(), Some((2, 2)));
    board.update_move_set(vec![(0, 0)], vec![]);
    assert_eq!(board.get_last_opp_move(), Some((2, 2)));
    board.set_player_order(PlayerOrder::Player2);
    board.update_move_set(vec![(0, 0), (4, 5)], vec![(1, 1)]);
    assert_eq!(board.get_last_opp_move(), Some((4, 5)));
    assert_eq!(board.get_player_order(), PlayerOrder::Player2);
}

#[test]
fn snapshot_updates_the_moves() {
    let mut board = BoardManager::new();
    board.update_game_context(&sample_context());
    assert_eq!(board.get_last_opp_move(), Some((1, 1)));
    board.set_player_order(PlayerOrder::Player2);
    board.update_game_context(&sample_context());
    assert_eq!(board.get_last_opp_move(), Some((2, 1)));
}

#[test]
fn moves_with_a_negative_coordinate_are_left_out() {
    assert_eq!(
        moves_on_board(&vec![(1, 2), (-1, 2), (3, -4), (0, 0), (-5, -5), (7, 8)]),
        vec![(1, 2), (0, 0), (7, 8)]
    );
    assert!(moves_on_board(&vec![]).is_empty());
}

#[test]
fn liveness_probe_is_answered_in_every_state() {
    let executor = ResponseExecutor::new();
    for player_state in [
        PlayerState::Logged(ConnectState::Disconnected),
        PlayerState::InRoom(ConnectState::Connected),
        PlayerState::InGame(ConnectState::Connected),
    ] {
        let mut state = state_in(player_state);
        assert_eq!(
            executor.execute_response(&mut state, ServerCode::General(GeneralResponse::AreYouAlive)),
            vec![ClientAction::SendRequest(PlayerCode::General(GeneralRequest::IAmAlive))]
        );
        assert_eq!(state.get_player_state(), player_state);
    }
    let mut state = state_in(PlayerState::Logged(ConnectState::Connected));
    assert!(executor
        .execute_response(
            &mut state,
            ServerCode::General(GeneralResponse::State(PlayerState::InGame(ConnectState::Connected)))
        )
        .is_empty());
    assert_eq!(state.get_player_state(), PlayerState::Logged(ConnectState::Connected));
}

#[test]
fn joining_a_room_moves_the_client_into_the_room() {
    let executor = ResponseExecutor::new();
    let mut state = state_in(PlayerState::Logged(ConnectState::Connected));
    assert_eq!(
        executor.execute_response(&mut state, ServerCode::Logged(LoggedResponse::JoinedRoomAsPlayer1(4))),
        vec![
            ClientAction::CleanScreen,
            ClientAction::SetPlayerOrder(PlayerOrder::Player1),
            ClientAction::UpdateScreen,
            ClientAction::Log(LogContent::JoinedRoomAsPlayer1(4)),
            ClientAction::EnablePromptMode,
        ]
    );
    assert_eq!(state.get_player_state(), PlayerState::InRoom(ConnectState::Connected));
    assert_eq!(state.get_current_rid(), 4);

    let mut state = state_in(PlayerState::Logged(ConnectState::Connected));
    assert_eq!(
        executor.execute_response(&mut state, ServerCode::Logged(LoggedResponse::JoinedRoomAsPlayer2(9))),
        vec![
            ClientAction::CleanScreen,
            ClientAction::SetPlayerOrder(PlayerOrder::Player2),
            ClientAction::UpdateScreen,
            ClientAction::Log(LogContent::JoinedRoomAsPlayer2(9)),
            ClientAction::EnablePromptMode,
        ]
    );
    assert_eq!(state.get_player_state(), PlayerState::InRoom(ConnectState::Connected));
    assert_eq!(state.get_current_rid(), 9);
}

#[test]
fn failures_change_nothing_at_the_client() {
    let executor = ResponseExecutor::new();
    let mut state = state_in(PlayerState::Logged(ConnectState::Connected));
    assert!(executor
        .execute_response(&mut state, ServerCode::Logged(LoggedResponse::FailedToCreateRoom))
        .is_empty());
    assert!(executor
        .execute_response(&mut state, ServerCode::Logged(LoggedResponse::FailedToJoinRoom(3)))
        .is_empty());
    assert_eq!(state.get_player_state(), PlayerState::Logged(ConnectState::Connected));
    assert_eq!(state.get_current_rid(), NO_ID);
}

#[test]
fn full_room_starts_the_game_at_the_client() {
    let executor = ResponseExecutor::new();
    let mut state = state_in(PlayerState::InRoom(ConnectState::Connected));
    assert_eq!(
        executor.execute_response(&mut state, ServerCode::InRoom(InRoomResponse::YourRoomIsFull(2))),
        vec![
            ClientAction::CleanScreen,
            ClientAction::UpdateScreen,
            ClientAction::Log(LogContent::GameIsReady),
            ClientAction::EnablePromptMode,
        ]
    );
    assert_eq!(state.get_player_state(), PlayerState::InGame(ConnectState::Connected));
    assert_eq!(state.get_current_rid(), 2);
}

#[test]
fn snapshot_is_shown_only_in_a_game() {
    let executor = ResponseExecutor::new();
    let mut state = state_in(PlayerState::InGame(ConnectState::Connected));
    assert_eq!(
        executor.execute_response(&mut state, ServerCode::InGame(InGameResponse::Context(sample_context()))),
        vec![ClientAction::UpdateGameContext(sample_context()), ClientAction::UpdateBoardOnly]
    );
    assert!(executor
        .execute_response(&mut state, ServerCode::InGame(InGameResponse::MoveSuccess))
        .is_empty());
    assert!(executor
        .execute_response(&mut state, ServerCode::InGame(InGameResponse::MoveUnsuccess))
        .is_empty());
    let mut state = state_in(PlayerState::InRoom(ConnectState::Connected));
    assert!(executor
        .execute_response(&mut state, ServerCode::InGame(InGameResponse::Context(sample_context())))
        .is_empty());
}

#[test]
fn responses_of_another_phase_are_ignored() {
    let executor = ResponseExecutor::new();
    for player_state in [
        PlayerState::Logged(ConnectState::Disconnected),
        PlayerState::InRoom(ConnectState::Connected),
        PlayerState::InGame(ConnectState::Connected),
    ] {
        let mut state = state_in(player_state);
        assert!(executor
            .execute_response(&mut state, ServerCode::Logged(LoggedResponse::JoinedRoomAsPlayer1(4)))
            .is_empty());
        assert_eq!(state.get_player_state(), player_state);
        assert_eq!(state.get_current_rid(), NO_ID);
    }
    let mut state = state_in(PlayerState::InGame(ConnectState::Connected));
    assert!(executor
        .execute_response(&mut state, ServerCode::InRoom(InRoomResponse::YourRoomIsFull(2)))
        .is_empty());
    let mut state = state_in(PlayerState::InRoom(ConnectState::Disconnected));
    assert!(executor
        .execute_response(&mut state, ServerCode::InRoom(InRoomResponse::YourRoomIsFull(2)))
        .is_empty());
    assert_eq!(state.get_player_state(), PlayerState::InRoom(ConnectState::Disconnected));
}

#[test]
fn room_commands_send_requests_when_logged_in() {
    let executor = CommandExecutor::new();
    let board = BoardManager::new();
    let state = state_in(PlayerState::Logged(ConnectState::Connected));
    for rule in [GameRule::TicTacToe, GameRule::FourBlockOne, GameRule::FiveBlockTwo] {
        assert_eq!(
            executor.execute_command(
                &state,
                &board,
                true,
                UserCommand::Logged(LoggedCommand::RequestNewRoom(rule))
            ),
            vec![ClientAction::SendRequest(PlayerCode::Logged(LoggedRequest::RequestRoomAsPlayer1(rule)))]
        );
    }
    assert_eq!(
        executor.execute_command(&state, &board, true, UserCommand::Logged(LoggedCommand::JoinRoom(6))),
        vec![ClientAction::SendRequest(PlayerCode::Logged(LoggedRequest::JoinRoom(6)))]
    );
    let state = state_in(PlayerState::InGame(ConnectState::Connected));
    assert!(executor
        .execute_command(&state, &board, true, UserCommand::Logged(LoggedCommand::JoinRoom(6)))
        .is_empty());
    let state = state_in(PlayerState::Logged(ConnectState::Disconnected));
    assert!(executor
        .execute_command(&state, &board, true, UserCommand::Logged(LoggedCommand::JoinRoom(6)))
        .is_empty());
}

#[test]
fn game_commands_move_the_cursor_or_send_a_move() {
    let executor = CommandExecutor::new();
    let mut board = BoardManager::new();
    board.set_cursor_pos(3, 7);
    let state = state_in(PlayerState::InGame(ConnectState::Connected));
    let run = |command: InGameCommand| executor.execute_command(&state, &board, false, UserCommand::InGame(command));
    assert_eq!(run(InGameCommand::Up), vec![ClientAction::SetCursorPos(2, 7), ClientAction::UpdateBoardOnly]);
    assert_eq!(run(InGameCommand::Down), vec![ClientAction::SetCursorPos(4, 7), ClientAction::UpdateBoardOnly]);
    assert_eq!(run(InGameCommand::Left), vec![ClientAction::SetCursorPos(3, 6), ClientAction::UpdateBoardOnly]);
    assert_eq!(run(InGameCommand::Right), vec![ClientAction::SetCursorPos(3, 8), ClientAction::UpdateBoardOnly]);
    assert_eq!(
        run(InGameCommand::Enter),
        vec![ClientAction::SendRequest(PlayerCode::InGame(InGameRequest::PlayerMove((3, 7))))]
    );
    assert_eq!(
        run(InGameCommand::Move((9, 9))),
        vec![ClientAction::SendRequest(PlayerCode::InGame(InGameRequest::PlayerMove((9, 9))))]
    );
    assert_eq!(run(InGameCommand::SwitchInputMode), vec![ClientAction::EnablePromptMode]);
    assert!(run(InGameCommand::Undo).is_empty());
    assert!(run(InGameCommand::Redo).is_empty());
    assert!(run(InGameCommand::LeaveRoom).is_empty());
    assert_eq!(
        executor.execute_command(&state, &board, true, UserCommand::InGame(InGameCommand::SwitchInputMode)),
        vec![ClientAction::DisablePromptMode]
    );
}

#[test]
fn cursor_in_the_corner_may_be_sent_off_the_board() {
    let executor = CommandExecutor::new();
    let board = BoardManager::new();
    let state = state_in(PlayerState::InGame(ConnectState::Connected));
    assert_eq!(
        executor.execute_command(&state, &board, false, UserCommand::InGame(InGameCommand::Up)),
        vec![ClientAction::SetCursorPos(-1, 0), ClientAction::UpdateBoardOnly]
    );
}

#[test]
fn commands_of_another_phase_take_no_step() {
    let executor = CommandExecutor::new();
    let board = BoardManager::new();
    let state = state_in(PlayerState::InRoom(ConnectState::Connected));
    assert!(executor
        .execute_command(&state, &board, false, UserCommand::InGame(InGameCommand::Enter))
        .is_empty());
    assert!(executor
        .execute_command(&state, &board, false, UserCommand::InRoom(InRoomCommand::LeaveRoom))
        .is_empty());
    assert!(executor
        .execute_command(&state, &board, false, UserCommand::General(GeneralCommand::ExitApplication))
        .is_empty());
    assert!(executor
        .execute_command(&state, &board, false, UserCommand::General(GeneralCommand::Invalid))
        .is_empty());
}

#[test]
fn listing_shows_the_marks_of_a_small_board() {
    let rows = context_rows(&sample_context());
    assert_eq!(
        rows,
        vec![
            vec![TileState::Player1, TileState::Empty, TileState::Empty],
            vec![TileState::Empty, TileState::Player2, TileState::Empty],
            vec![TileState::Empty, TileState::Player1, TileState::Empty],
        ]
    );
}

#[test]
fn listing_is_cut_to_the_screen() {
    let mut context = sample_context();
    context.board_height = 1024;
    context.board_width = 7;
    context.player2_move_history = vec![(9, 6), (10, 0), (0, 7), (-1, 0)];
    let rows = context_rows(&context);
    assert_eq!(rows.len(), SCREEN_HEIGHT);
    assert_eq!(rows.len(), 10);
    assert!(rows.iter().all(|row| row.len() == 7));
    assert_eq!(rows[9][6], TileState::Player2);
    assert_eq!(rows[0][0], TileState::Player1);
    assert_eq!(rows[2][1], TileState::Player1);
    assert_eq!(rows.iter().flatten().filter(|tile| **tile != TileState::Empty).count(), 3);
    context.board_width = 500;
    assert!(context_rows(&context).iter().all(|row| row.len() == SCREEN_WIDTH));
}

#[test]
fn listing_of_a_board_without_tiles_is_empty() {
    let mut context = sample_context();
    context.board_height = 0;
    assert!(context_rows(&context).is_empty());
    context.board_height = 3;
    context.board_width = 0;
    let rows = context_rows(&context);
    assert_eq!(rows.len(), 3);
    assert!(rows.iter().all(|row| row.is_empty()));
}

#[test]
fn a_tile_that_both_histories_name_shows_player_one() {
    let mut context = sample_context();
    context.player2_move_history = vec![(0, 0)];
    assert_eq!(context_rows(&context)[0][0], TileState::Player1);
}
