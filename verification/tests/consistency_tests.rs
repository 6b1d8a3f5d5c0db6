use simple_caro_app::caro_protocol::{
    ConnectState, GameRule, GeneralRequest, InGameRequest, InRoomRequest, LoggedRequest, PlayerCode,
    PlayerState,
};
use simple_caro_app::client_request_executor::RequestExecutor;
use simple_caro_app::game_manager::GameContainer;
use simple_caro_app::id_pool::{IdPool, NO_ID};
use simple_caro_app::player_manager::PlayerContainer;
use simple_caro_app::room_manager::RoomContainer;

const MAX_PLAYERS: usize = 12;
const MAX_ROOMS: usize = 5;
const MAX_GAMES: usize = 7;

/// A small generator of numbers that look random and are the same on every run.
struct Dice(u64);

impl Dice {
    fn roll(&mut self, sides: u64) -> u64 {
        self.0 = self.0.wrapping_mul(6364136223846793005).wrapping_add(1442695040888963407);
        (self.0 >> 33) % sides
    }
}

fn request(dice: &mut Dice) -> PlayerCode {
    match dice.roll(12) {
        0 => PlayerCode::General(GeneralRequest::PlayerRequestState),
        1 => PlayerCode::General(GeneralRequest::PlayerExitApplication),
        2 => PlayerCode::General(GeneralRequest::IAmAlive),
        3 => PlayerCode::Logged(LoggedRequest::RequestRoomAsPlayer1(GameRule::TicTacToe)),
        4 => PlayerCode::Logged(LoggedRequest::RequestRoomAsPlayer1(GameRule::FiveBlockTwo)),
        5 | 6 => PlayerCode::Logged(LoggedRequest::JoinRoom(dice.roll(MAX_ROOMS as u64 + 2) as i32)),
        7 => PlayerCode::InRoom(InRoomRequest::PlayerLeaveRoom),
        8 => PlayerCode::InGame(InGameRequest::PlayerLeaveRoom),
        9 => PlayerCode::InGame(InGameRequest::PlayerUndo),
        10 => PlayerCode::InGame(InGameRequest::PlayerRequestContext),
        _ => PlayerCode::InGame(InGameRequest::PlayerMove((dice.roll(4) as i64, dice.roll(4) as i64))),
    }
}

/// Fails unless the registries agree with each other.
fn assert_consistent(server: &RequestExecutor) {
    let players = server.player_manager();
    let rooms = server.room_manager();
    let games = server.game_manager();
    let mut seated: Vec<i32> = Vec::new();
    for rid in 1..=(MAX_ROOMS as i32 + 1) {
        let Some((first, second)) = rooms.get_pids_in_room(rid) else { continue };
        assert!(!rooms.room_empty(rid), "room {} is empty", rid);
        assert!(games.find_game_contain_room(rid).is_some(), "room {} has no game", rid);
        for pid in [first, second] {
            if pid != NO_ID {
                assert!(players.player_exist(pid), "room {} seats the unknown player {}", rid, pid);
                assert!(!seated.contains(&pid), "player {} sits twice", pid);
                seated.push(pid);
            }
        }
    }
    for pid in 1..=(MAX_PLAYERS as i32 + 1) {
        let Some(state) = players.get_player_state(pid) else { continue };
        let logged = matches!(state, PlayerState::Logged(_));
        assert_eq!(logged, !seated.contains(&pid), "player {} in state {:?}", pid, state);
        assert_eq!(rooms.find_room_contain_player(pid).is_some(), !logged);
    }
}

#[test]
fn registries_agree_after_every_request_of_a_long_run() {
    for seed in 0..20u64 {
        let mut dice = Dice(seed);
        let mut server = RequestExecutor::new(
            PlayerContainer::new(MAX_PLAYERS, IdPool::<i32>::new()),
            RoomContainer::new(MAX_ROOMS, IdPool::<i32>::new()),
            GameContainer::new(MAX_GAMES, IdPool::<i32>::new()),
        );
        assert_consistent(&server);
        for _ in 0..600 {
            match dice.roll(10) {
                0 => {
                    server.add_player();
                }
                1 => {
                    let pid = dice.roll(MAX_PLAYERS as u64 + 2) as i32;
                    server.clean_player_existence(pid);
                }
                2 => {
                    let pid = dice.roll(MAX_PLAYERS as u64 + 2) as i32;
                    let connection = if dice.roll(4) == 0 {
                        ConnectState::Disconnected
                    } else {
                        ConnectState::Connected
                    };
                    server.set_connection_state(pid, connection);
                }
                3 => {
                    server.send_checkalive_message(dice.roll(MAX_PLAYERS as u64 + 2) as i32);
                    server.take_pending();
                }
                _ => {
                    let pid = dice.roll(MAX_PLAYERS as u64 + 2) as i32;
                    let code = request(&mut dice);
                    server.execute_request(pid, code);
                }
            }
            assert_consistent(&server);
        }
    }
}

#[test]
fn every_message_goes_to_a_registered_player() {
    let mut dice = Dice(99);
    let mut server = RequestExecutor::new(
        PlayerContainer::new(MAX_PLAYERS, IdPool::<i32>::new()),
        RoomContainer::new(MAX_ROOMS, IdPool::<i32>::new()),
        GameContainer::new(MAX_GAMES, IdPool::<i32>::new()),
    );
    for _ in 0..MAX_PLAYERS {
        server.add_player();
    }
    for _ in 0..400 {
        let pid = dice.roll(MAX_PLAYERS as u64) as i32 + 1;
        let code = request(&mut dice);
        if matches!(code, PlayerCode::General(GeneralRequest::PlayerExitApplication)) {
            continue;
        }
        server.execute_request(pid, code);
        for (receiver, _) in server.take_pending() {
            assert!(server.player_manager().player_exist(receiver));
        }
    }
}
