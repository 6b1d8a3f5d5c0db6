use simple_caro_app::caro_protocol::{ConnectState, PlayerState};
use simple_caro_app::client_state::ClientState;
use simple_caro_app::global_state::GolbalState;
use simple_caro_app::id_pool::NO_ID;

#[test]
fn client_state_starts_logged_disconnected_and_in_no_room() {
    let state = ClientState::new();
    assert_eq!(state.get_player_state(), PlayerState::Logged(ConnectState::Disconnected));
    assert_eq!(state.get_connection_state(), ConnectState::Disconnected);
    assert_eq!(state.get_rid(), NO_ID);
}

#[test]
fn client_state_keeps_the_phase_when_the_connection_changes() {
    let mut state = ClientState::new();
    state.set_connection_state(ConnectState::Connected);
    assert_eq!(state.get_player_state(), PlayerState::Logged(ConnectState::Connected));
    state.set_player_state(PlayerState::InRoom(ConnectState::Connected));
    state.set_connection_state(ConnectState::Disconnected);
    assert_eq!(state.get_player_state(), PlayerState::InRoom(ConnectState::Disconnected));
    state.set_player_state(PlayerState::InGame(ConnectState::Disconnected));
    state.set_connection_state(ConnectState::Connected);
    assert_eq!(state.get_player_state(), PlayerState::InGame(ConnectState::Connected));
    assert_eq!(state.get_connection_state(), ConnectState::Connected);
}

#[test]
fn client_state_remembers_the_room() {
    let mut state = ClientState::new();
    state.set_rid(12);
    assert_eq!(state.get_rid(), 12);
    assert_eq!(state.get_player_state(), PlayerState::Logged(ConnectState::Disconnected));
    state.set_player_state(PlayerState::InRoom(ConnectState::Connected));
    assert_eq!(state.get_rid(), 12);
}

#[test]
fn shared_state_starts_logged_disconnected_and_in_no_room() {
    let state = GolbalState::new();
    assert_eq!(state.get_player_state(), PlayerState::Logged(ConnectState::Disconnected));
    assert_eq!(state.get_connection_state(), ConnectState::Disconnected);
    assert_eq!(state.get_current_rid(), NO_ID);
}

#[test]
fn shared_state_keeps_the_phase_when_the_connection_changes() {
    let mut state = GolbalState::new();
    state.set_player_state(PlayerState::InGame(ConnectState::Connected));
    state.set_connection_state(ConnectState::Disconnected);
    assert_eq!(state.get_player_state(), PlayerState::InGame(ConnectState::Disconnected));
    assert_eq!(state.get_connection_state(), ConnectState::Disconnected);
    state.set_current_rid(3);
    assert_eq!(state.get_current_rid(), 3);
    assert_eq!(state.get_player_state(), PlayerState::InGame(ConnectState::Disconnected));
}
