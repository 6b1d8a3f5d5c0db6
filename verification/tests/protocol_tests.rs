use simple_caro_app::caro_protocol::{
    copy_coordinates, ConnectState, GameContext, GameRule, GameState, GenericCode, InGameRequest,
    InGameResponse, LoggedRequest, LoggedResponse, MessagePacket, PlayerCode, PlayerOrder, ServerCode,
    ToMessagePacket,
};

fn sample_context() -> GameContext {
    GameContext {
        board_height: 3,
        board_width: 3,
        player1_move_history: vec![(0, 0), (2, 1)],
        player2_move_history: vec![(1, 1)],
        player1_undone_moves: vec![],
        player2_undone_moves: vec![(2, 2)],
        game_state: GameState::Player2Turn,
        player1_connection_state: ConnectState::Connected,
        player2_connection_state: ConnectState::Disconnected,
        receiver_order: PlayerOrder::Player2,
    }
}

#[test]
fn player_packet_carries_the_player_code() {
    let code = PlayerCode::InGame(InGameRequest::PlayerMove((4, -2)));
    let packet = MessagePacket::new_player_packet(code);
    assert_eq!(packet.code(), GenericCode::Player(code));
}

#[test]
fn server_packet_carries_the_server_code() {
    let packet = MessagePacket::new_server_packet(ServerCode::Logged(LoggedResponse::FailedToJoinRoom(9)));
    assert_eq!(
        packet.code(),
        GenericCode::Server(ServerCode::Logged(LoggedResponse::FailedToJoinRoom(9)))
    );
}

#[test]
fn copies_are_equal_to_what_they_copy() {
    let context = sample_context();
    assert_eq!(context.clone(), context);
    let code = ServerCode::InGame(InGameResponse::Context(sample_context()));
    assert_eq!(code.clone(), code);
    let packet = MessagePacket::new_server_packet(code);
    assert_eq!(packet.clone(), packet);
    assert_eq!(
        packet.code(),
        GenericCode::Server(ServerCode::InGame(InGameResponse::Context(sample_context())))
    );
    assert_eq!(copy_coordinates(&vec![(1, 2), (3, 4)]), vec![(1, 2), (3, 4)]);
    assert!(copy_coordinates(&vec![]).is_empty());
}

#[test]
fn decoded_code_becomes_the_packet_that_carries_it() {
    let player = GenericCode::Player(PlayerCode::Logged(LoggedRequest::RequestRoomAsPlayer1(
        GameRule::FourBlockOne,
    )));
    assert_eq!(player.clone().to_message_packet().code(), player);
    let server = GenericCode::Server(ServerCode::InGame(InGameResponse::MoveUnsuccess));
    assert_eq!(server.clone().to_message_packet().code(), server);
}
