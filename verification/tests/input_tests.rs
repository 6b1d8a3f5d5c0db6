use simple_caro_app::caro_protocol::GameRule;
use simple_caro_app::input_from_user::{
    chars_of, parse_i64, parse_line, word, GeneralCommand, InGameCommand, InputType, KeyType,
    LoggedCommand, ToUserCommand, UserCommand,
};

const INVALID: UserCommand = UserCommand::General(GeneralCommand::Invalid);

fn chars(text: &str) -> Vec<char> {
    text.chars().collect()
}

#[test]
fn mkroom_takes_the_three_line_lengths() {
    assert_eq!(
        parse_line("mkroom 3"),
        UserCommand::Logged(LoggedCommand::RequestNewRoom(GameRule::TicTacToe))
    );
    assert_eq!(
        parse_line("mkroom 4"),
        UserCommand::Logged(LoggedCommand::RequestNewRoom(GameRule::FourBlockOne))
    );
    assert_eq!(
        parse_line("mkroom 5"),
        UserCommand::Logged(LoggedCommand::RequestNewRoom(GameRule::FiveBlockTwo))
    );
    assert_eq!(parse_line("mkroom 6"), INVALID);
    assert_eq!(parse_line("mkroom 33"), INVALID);
    assert_eq!(parse_line("mkroom +3"), INVALID);
    assert_eq!(parse_line("mkroom"), INVALID);
}

#[test]
fn cdroom_takes_a_room_id() {
    assert_eq!(parse_line("cdroom 12"), UserCommand::Logged(LoggedCommand::JoinRoom(12)));
    assert_eq!(parse_line("cdroom -1"), UserCommand::Logged(LoggedCommand::JoinRoom(-1)));
    assert_eq!(parse_line("cdroom +7"), UserCommand::Logged(LoggedCommand::JoinRoom(7)));
    assert_eq!(parse_line("cdroom 007"), UserCommand::Logged(LoggedCommand::JoinRoom(7)));
    assert_eq!(
        parse_line("cdroom 2147483647"),
        UserCommand::Logged(LoggedCommand::JoinRoom(i32::MAX))
    );
    assert_eq!(
        parse_line("cdroom -2147483648"),
        UserCommand::Logged(LoggedCommand::JoinRoom(i32::MIN))
    );
    assert_eq!(parse_line("cdroom 2147483648"), INVALID);
    assert_eq!(parse_line("cdroom -2147483649"), INVALID);
    assert_eq!(parse_line("cdroom x"), INVALID);
    assert_eq!(parse_line("cdroom 1x"), INVALID);
    assert_eq!(parse_line("cdroom"), INVALID);
    assert_eq!(parse_line("cdroom -"), INVALID);
    assert_eq!(parse_line("cdroom +"), INVALID);
    assert_eq!(parse_line("cdroom 1.5"), INVALID);
}

#[test]
fn move_takes_latitude_and_longitude() {
    assert_eq!(parse_line("move 3 4"), UserCommand::InGame(InGameCommand::Move((3, 4))));
    assert_eq!(parse_line("move -3 +4"), UserCommand::InGame(InGameCommand::Move((-3, 4))));
    assert_eq!(
        parse_line("move 9223372036854775807 -9223372036854775808"),
        UserCommand::InGame(InGameCommand::Move((i64::MAX, i64::MIN)))
    );
    assert_eq!(parse_line("move 9223372036854775808 0"), INVALID);
    assert_eq!(parse_line("move 0 -9223372036854775809"), INVALID);
    assert_eq!(parse_line("move 99999999999999999999999999999999999999999999 0"), INVALID);
    assert_eq!(parse_line("move 3"), INVALID);
    assert_eq!(parse_line("move"), INVALID);
    assert_eq!(parse_line("move a b"), INVALID);
    assert_eq!(parse_line("move 1 b"), INVALID);
}

#[test]
fn white_space_around_and_between_words_does_not_matter() {
    assert_eq!(parse_line("   move   1\t2  \n"), UserCommand::InGame(InGameCommand::Move((1, 2))));
    assert_eq!(parse_line("\u{a0}cdroom\u{3000}5\u{2003}"), UserCommand::Logged(LoggedCommand::JoinRoom(5)));
    assert_eq!(
        parse_line("\r\nmkroom\u{b}3"),
        UserCommand::Logged(LoggedCommand::RequestNewRoom(GameRule::TicTacToe))
    );
}

#[test]
fn words_after_the_arguments_are_ignored() {
    assert_eq!(parse_line("move 1 2 3 now"), UserCommand::InGame(InGameCommand::Move((1, 2))));
    assert_eq!(parse_line("cdroom 4 please"), UserCommand::Logged(LoggedCommand::JoinRoom(4)));
}

#[test]
fn other_lines_are_invalid() {
    assert_eq!(parse_line(""), INVALID);
    assert_eq!(parse_line("   \t "), INVALID);
    assert_eq!(parse_line("exit"), INVALID);
    assert_eq!(parse_line("Move 1 2"), INVALID);
    assert_eq!(parse_line("mkroo 3"), INVALID);
    assert_eq!(parse_line("mkrooms 3"), INVALID);
    assert_eq!(parse_line("moved 1 2"), INVALID);
    assert_eq!(parse_line("mové 1 2"), INVALID);
}

#[test]
fn keys_become_in_game_commands() {
    assert_eq!(InputType::Key(KeyType::Up).to_user_command(), UserCommand::InGame(InGameCommand::Up));
    assert_eq!(InputType::Key(KeyType::Down).to_user_command(), UserCommand::InGame(InGameCommand::Down));
    assert_eq!(InputType::Key(KeyType::Left).to_user_command(), UserCommand::InGame(InGameCommand::Left));
    assert_eq!(InputType::Key(KeyType::Right).to_user_command(), UserCommand::InGame(InGameCommand::Right));
    assert_eq!(
        InputType::Key(KeyType::Esc).to_user_command(),
        UserCommand::InGame(InGameCommand::SwitchInputMode)
    );
    assert_eq!(InputType::Key(KeyType::Invalid).to_user_command(), INVALID);
}

#[test]
fn text_input_is_parsed_as_a_line() {
    assert_eq!(
        InputType::Text("move 7 8".to_string()).to_user_command(),
        UserCommand::InGame(InGameCommand::Move((7, 8)))
    );
    assert_eq!(InputType::Text("".to_string()).to_user_command(), INVALID);
}

#[test]
fn words_are_found_by_number() {
    let line = chars("  alpha beta\tgamma ");
    assert_eq!(word(&line, 0), Some(chars("alpha")));
    assert_eq!(word(&line, 1), Some(chars("beta")));
    assert_eq!(word(&line, 2), Some(chars("gamma")));
    assert_eq!(word(&line, 3), None);
    assert_eq!(word(&chars(""), 0), None);
    assert_eq!(word(&chars("x"), 0), Some(chars("x")));
}

#[test]
fn numbers_are_read_in_decimal() {
    assert_eq!(parse_i64(&chars("0")), Some(0));
    assert_eq!(parse_i64(&chars("-0")), Some(0));
    assert_eq!(parse_i64(&chars("42")), Some(42));
    assert_eq!(parse_i64(&chars("-42")), Some(-42));
    assert_eq!(parse_i64(&chars("+42")), Some(42));
    assert_eq!(parse_i64(&chars("0000000000000000000000000000017")), Some(17));
    assert_eq!(parse_i64(&chars("")), None);
    assert_eq!(parse_i64(&chars("--1")), None);
    assert_eq!(parse_i64(&chars("1-")), None);
    assert_eq!(parse_i64(&chars("١٢")), None);
    assert_eq!(parse_i64(&chars(" 1")), None);
}

#[test]
fn numbers_agree_with_the_standard_parser() {
    for text in ["5", "-5", "+5", "9223372036854775807", "-9223372036854775808", "9223372036854775808", "x", "", "-", "12a"] {
        assert_eq!(parse_i64(&chars(text)), text.parse::<i64>().ok());
    }
}

#[test]
fn chars_of_a_text_are_its_characters() {
    assert_eq!(chars_of("añ→b"), vec!['a', 'ñ', '→', 'b']);
    assert!(chars_of("").is_empty());
}
