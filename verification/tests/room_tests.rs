use simple_caro_app::caro_protocol::GameRule;
use simple_caro_app::id_pool::{IdPool, NO_ID};
use simple_caro_app::room_manager::{GameRoom, PlayerOrder, RoomContainer};

#[test]
fn new_room_is_empty_and_not_full() {
    let room = GameRoom::new(GameRule::FourBlockOne);
    assert!(room.is_empty());
    assert!(!room.is_full());
    assert_eq!(room.get_pids(), (NO_ID, NO_ID));
    assert_eq!(room.get_rule(), GameRule::FourBlockOne);
}

#[test]
fn room_fills_seat_by_seat() {
    let mut room = GameRoom::new(GameRule::TicTacToe);
    room.add_player(PlayerOrder::Player1(7));
    assert!(!room.is_empty());
    assert!(!room.is_full());
    assert_eq!(room.get_pids(), (7, NO_ID));
    room.add_player(PlayerOrder::Player2(9));
    assert!(room.is_full());
    assert_eq!(room.get_pids(), (7, 9));
}

#[test]
fn removing_a_player_empties_only_that_seat() {
    let mut room = GameRoom::new(GameRule::TicTacToe);
    room.add_player(PlayerOrder::Player1(7));
    room.add_player(PlayerOrder::Player2(9));
    room.remove_player(9);
    assert_eq!(room.get_pids(), (7, NO_ID));
    room.remove_player(5);
    assert_eq!(room.get_pids(), (7, NO_ID));
    room.remove_player(7);
    assert!(room.is_empty());
}

#[test]
fn removing_a_player_that_holds_both_seats_frees_seat_one_first() {
    let mut room = GameRoom::new(GameRule::TicTacToe);
    room.add_player(PlayerOrder::Player1(4));
    room.add_player(PlayerOrder::Player2(4));
    room.remove_player(4);
    assert_eq!(room.get_pids(), (NO_ID, 4));
}

#[test]
fn add_room_uses_the_least_free_id() {
    let mut rooms = RoomContainer::new(8, IdPool::<i32>::new());
    assert_eq!(rooms.add_room(GameRule::TicTacToe), 1);
    assert_eq!(rooms.add_room(GameRule::FourBlockOne), 2);
    assert_eq!(rooms.add_room(GameRule::FiveBlockTwo), 3);
    rooms.remove_room(2);
    assert!(!rooms.room_exist(2));
    assert_eq!(rooms.add_room(GameRule::FiveBlockTwo), 2);
    assert_eq!(rooms.get_rule_in_room(1), Some(GameRule::TicTacToe));
    assert_eq!(rooms.get_rule_in_room(2), Some(GameRule::FiveBlockTwo));
    assert_eq!(rooms.get_rule_in_room(3), Some(GameRule::FiveBlockTwo));
    assert_eq!(rooms.get_rule_in_room(4), None);
}

#[test]
fn add_room_fails_at_capacity() {
    let mut rooms = RoomContainer::new(2, IdPool::<i32>::new());
    assert_eq!(rooms.add_room(GameRule::TicTacToe), 1);
    assert_eq!(rooms.add_room(GameRule::TicTacToe), 2);
    assert_eq!(rooms.add_room(GameRule::TicTacToe), NO_ID);
    rooms.remove_room(1);
    assert_eq!(rooms.add_room(GameRule::TicTacToe), 1);
}

#[test]
fn container_of_capacity_zero_takes_no_room() {
    let mut rooms = RoomContainer::new(0, IdPool::<i32>::new());
    assert_eq!(rooms.add_room(GameRule::TicTacToe), NO_ID);
    assert!(!rooms.room_exist(1));
}

#[test]
fn container_skips_ids_that_its_pool_already_holds() {
    let mut pool = IdPool::<i32>::new();
    assert_eq!(pool.alloc_id(), 1);
    assert_eq!(pool.alloc_id(), 2);
    let mut rooms = RoomContainer::new(8, pool);
    assert_eq!(rooms.add_room(GameRule::TicTacToe), 3);
    rooms.remove_room(1);
    assert_eq!(rooms.add_room(GameRule::TicTacToe), 1);
}

#[test]
fn unknown_room_is_reported_not_found() {
    let mut rooms = RoomContainer::new(8, IdPool::<i32>::new());
    assert!(!rooms.add_player_to_room(5, PlayerOrder::Player1(1)));
    assert!(!rooms.remove_player_from_room(5, 1));
    assert_eq!(rooms.get_pids_in_room(5), None);
    assert!(!rooms.room_full(5));
    assert!(!rooms.room_empty(5));
    assert!(!rooms.room_exist(5));
    assert_eq!(rooms.find_room_contain_player(1), None);
}

#[test]
fn room_predicates_follow_the_seats() {
    let mut rooms = RoomContainer::new(8, IdPool::<i32>::new());
    let rid = rooms.add_room(GameRule::TicTacToe);
    assert!(rooms.room_empty(rid));
    assert!(!rooms.room_full(rid));
    assert!(rooms.add_player_to_room(rid, PlayerOrder::Player1(11)));
    assert!(!rooms.room_empty(rid));
    assert!(!rooms.room_full(rid));
    assert_eq!(rooms.get_pids_in_room(rid), Some((11, NO_ID)));
    assert!(rooms.add_player_to_room(rid, PlayerOrder::Player2(12)));
    assert!(rooms.room_full(rid));
    assert_eq!(rooms.get_pids_in_room(rid), Some((11, 12)));
    assert!(rooms.remove_player_from_room(rid, 11));
    assert_eq!(rooms.get_pids_in_room(rid), Some((NO_ID, 12)));
    assert!(rooms.remove_player_from_room(rid, 12));
    assert!(rooms.room_empty(rid));
}

#[test]
fn find_room_returns_the_least_room_that_seats_the_player() {
    let mut rooms = RoomContainer::new(8, IdPool::<i32>::new());
    let first = rooms.add_room(GameRule::TicTacToe);
    let second = rooms.add_room(GameRule::TicTacToe);
    let third = rooms.add_room(GameRule::TicTacToe);
    assert_eq!((first, second, third), (1, 2, 3));
    rooms.add_player_to_room(third, PlayerOrder::Player1(40));
    rooms.add_player_to_room(second, PlayerOrder::Player2(40));
    rooms.add_player_to_room(first, PlayerOrder::Player1(50));
    assert_eq!(rooms.find_room_contain_player(40), Some(2));
    assert_eq!(rooms.find_room_contain_player(50), Some(1));
    assert_eq!(rooms.find_room_contain_player(60), None);
    rooms.remove_room(second);
    assert_eq!(rooms.find_room_contain_player(40), Some(3));
}

#[test]
fn removing_a_room_releases_its_id_even_if_the_room_is_unknown() {
    let mut pool = IdPool::<i32>::new();
    assert_eq!(pool.alloc_id(), 1);
    let mut rooms = RoomContainer::new(8, pool);
    rooms.remove_room(1);
    assert_eq!(rooms.add_room(GameRule::TicTacToe), 1);
}
