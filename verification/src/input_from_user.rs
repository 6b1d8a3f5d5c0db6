//! What a user can enter at a client, and how a line of text is read as a command.
//!
//! A line is a sequence of words separated by white space. The first word
//! names the command, the following words are its arguments:
//! `mkroom 3`, `mkroom 4` or `mkroom 5` asks for a new room with the rule of
//! that line length; `cdroom` with a room id joins a room; `move` with a
//! latitude and a longitude places a mark. Further words are ignored. Every
//! other line is invalid.

use vstd::prelude::*;
use vstd::string::StrSliceExecFns;
use crate::caro_protocol::{Coordinate, GameRule, RoomId};

verus! {

/// A key that means something to the client.
#[derive(Debug, Clone, Copy, PartialEq, Eq, Structural)]
pub enum KeyType {
    Up,
    Down,
    Left,
    Right,
    Esc,
    Invalid,
}

/// One input of the user: a line of text or a key.
#[derive(Debug, PartialEq, Eq)]
pub enum InputType {
    Text(String),
    Key(KeyType),
}

impl Clone for InputType {
    fn clone(&self) -> (copy: Self)
        ensures
            copy == *self,
    {
        match self {
            InputType::Text(line) => InputType::Text(line.clone()),
            InputType::Key(key) => InputType::Key(*key),
        }
    }
}

/// Commands that are accepted in every phase.
#[derive(Debug, Clone, Copy, PartialEq, Eq, Structural)]
pub enum GeneralCommand {
    ExitApplication,
    Invalid,
}

/// Commands of a user that is in no room.
#[derive(Debug, Clone, Copy, PartialEq, Eq, Structural)]
pub enum LoggedCommand {
    RequestNewRoom(GameRule),
    JoinRoom(RoomId),
}

/// Commands of a user that waits in a room.
#[derive(Debug, Clone, Copy, PartialEq, Eq, Structural)]
pub enum InRoomCommand {
    LeaveRoom,
}

/// Commands of a user in a game.
#[derive(Debug, Clone, Copy, PartialEq, Eq)]
pub enum InGameCommand {
    Move(Coordinate),
    Up,
    Down,
    Left,
    Right,
    Enter,
    Undo,
    Redo,
    SwitchInputMode,
    LeaveRoom,
}

/// A command of the user, under the phase in which it is carried out.
#[derive(Debug, Clone, Copy, PartialEq, Eq)]
pub enum UserCommand {
    General(GeneralCommand),
    Logged(LoggedCommand),
    InRoom(InRoomCommand),
    InGame(InGameCommand),
}

/// Whether `c` is white space: one of the characters that Unicode marks so.
pub open spec fn is_space(c: char) -> bool {
    let code = c as u32;
    ||| 9 <= code <= 13
    ||| code == 0x20
    ||| code == 0x85
    ||| code == 0xA0
    ||| code == 0x1680
    ||| 0x2000 <= code <= 0x200A
    ||| code == 0x2028
    ||| code == 0x2029
    ||| code == 0x202F
    ||| code == 0x205F
    ||| code == 0x3000
}

/// The first position from `from` on that holds no white space, or the line's length.
pub open spec fn skip_spaces(line: Seq<char>, from: int) -> int
    decreases line.len() - from,
{
    if 0 <= from < line.len() && is_space(line[from]) {
        skip_spaces(line, from + 1)
    } else {
        from
    }
}

/// The first position from `from` on that holds white space, or the line's length.
pub open spec fn skip_word(line: Seq<char>, from: int) -> int
    decreases line.len() - from,
{
    if 0 <= from < line.len() && !is_space(line[from]) {
        skip_word(line, from + 1)
    } else {
        from
    }
}

/// The word number `n`, counted from zero, among the words of `line` that
/// start at `from` or later.
pub open spec fn nth_word(line: Seq<char>, from: int, n: nat) -> Option<Seq<char>>
    decreases n,
{
    let start = skip_spaces(line, from);
    if start >= line.len() {
        None
    } else {
        let end = skip_word(line, start);
        if n == 0 {
            Some(line.subrange(start, end))
        } else {
            nth_word(line, end, (n - 1) as nat)
        }
    }
}

pub open spec fn is_digit(c: char) -> bool {
    48 <= c as u32 <= 57
}

/// The number that a sequence of decimal digits writes; zero for no digits.
pub open spec fn digits_value(digits: Seq<char>) -> int
    decreases digits.len(),
{
    if digits.len() == 0 {
        0
    } else {
        digits_value(digits.drop_last()) * 10 + (digits.last() as u32 - 48)
    }
}

/// The digits of `word`: all of it but a leading sign.
pub open spec fn digits_of(word: Seq<char>) -> Seq<char> {
    if word.len() > 0 && (word[0] == '-' || word[0] == '+') {
        word.subrange(1, word.len() as int)
    } else {
        word
    }
}

/// The integer that `word` writes in decimal: an optional sign and at least
/// one digit, nothing else.
pub open spec fn decimal(word: Seq<char>) -> Option<int> {
    let digits = digits_of(word);
    if digits.len() == 0 || exists|i: int| 0 <= i < digits.len() && !is_digit(digits[i]) {
        None
    } else if word[0] == '-' {
        Some(-digits_value(digits))
    } else {
        Some(digits_value(digits))
    }
}

/// The integer that `word` writes, if it writes one from `low` to `high`.
pub open spec fn number_in(word: Option<Seq<char>>, low: int, high: int) -> Option<int> {
    match word {
        None => None,
        Some(word) => match decimal(word) {
            Some(value) => if low <= value <= high {
                Some(value)
            } else {
                None
            },
            None => None,
        },
    }
}

pub open spec fn word_mkroom() -> Seq<char> {
    seq!['m', 'k', 'r', 'o', 'o', 'm']
}

pub open spec fn word_cdroom() -> Seq<char> {
    seq!['c', 'd', 'r', 'o', 'o', 'm']
}

pub open spec fn word_move() -> Seq<char> {
    seq!['m', 'o', 'v', 'e']
}

/// The command that a line of text stands for.
pub open spec fn parse_command(line: Seq<char>) -> UserCommand {
    let invalid = UserCommand::General(GeneralCommand::Invalid);
    match nth_word(line, 0, 0) {
        None => invalid,
        Some(head) => if head == word_mkroom() {
            match nth_word(line, 0, 1) {
                None => invalid,
                Some(size) => if size == seq!['3'] {
                    UserCommand::Logged(LoggedCommand::RequestNewRoom(GameRule::TicTacToe))
                } else if size == seq!['4'] {
                    UserCommand::Logged(LoggedCommand::RequestNewRoom(GameRule::FourBlockOne))
                } else if size == seq!['5'] {
                    UserCommand::Logged(LoggedCommand::RequestNewRoom(GameRule::FiveBlockTwo))
                } else {
                    invalid
                },
            }
        } else if head == word_cdroom() {
            match number_in(nth_word(line, 0, 1), i32::MIN as int, i32::MAX as int) {
                Some(rid) => UserCommand::Logged(LoggedCommand::JoinRoom(rid as RoomId)),
                None => invalid,
            }
        } else if head == word_move() {
            match (
                number_in(nth_word(line, 0, 1), i64::MIN as int, i64::MAX as int),
                number_in(nth_word(line, 0, 2), i64::MIN as int, i64::MAX as int),
            ) {
                (Some(latitude), Some(longtitude)) => UserCommand::InGame(
                    InGameCommand::Move((latitude as i64, longtitude as i64)),
                ),
                _ => invalid,
            }
        } else {
            invalid
        },
    }
}

/// The command that a key stands for.
pub open spec fn key_command(key: KeyType) -> UserCommand {
    match key {
        KeyType::Up => UserCommand::InGame(InGameCommand::Up),
        KeyType::Down => UserCommand::InGame(InGameCommand::Down),
        KeyType::Left => UserCommand::InGame(InGameCommand::Left),
        KeyType::Right => UserCommand::InGame(InGameCommand::Right),
        KeyType::Esc => UserCommand::InGame(InGameCommand::SwitchInputMode),
        KeyType::Invalid => UserCommand::General(GeneralCommand::Invalid),
    }
}

/// The command that an input stands for.
pub open spec fn input_command(input: InputType) -> UserCommand {
    match input {
        InputType::Text(line) => parse_command(line@),
        InputType::Key(key) => key_command(key),
    }
}

fn is_space_char(c: char) -> (space: bool)
    ensures
        space == is_space(c),
{
    let code = c as u32;
    (9 <= code && code <= 13) || code == 0x20 || code == 0x85 || code == 0xA0 || code == 0x1680 || (0x2000
        <= code && code <= 0x200A) || code == 0x2028 || code == 0x2029 || code == 0x202F || code == 0x205F
        || code == 0x3000
}

/// The characters of `text`.
pub fn chars_of(text: &str) -> (chars: Vec<char>)
    ensures
        chars@ == text@,
{
    let len = text.unicode_len();
    let mut chars: Vec<char> = Vec::new();
    let mut i: usize = 0;
    while i < len
        invariant
            len == text@.len(),
            i <= len,
            chars@ == text@.subrange(0, i as int),
        decreases len - i,
    {
        chars.push(text.get_char(i));
        i = i + 1;
        assert(chars@ =~= text@.subrange(0, i as int));
    }
    assert(text@.subrange(0, len as int) =~= text@);
    chars
}

fn skip_spaces_from(line: &Vec<char>, from: usize) -> (next: usize)
    requires
        from <= line.len(),
    ensures
        next == skip_spaces(line@, from as int),
        from <= next <= line.len(),
{
    let mut i = from;
    loop
        invariant
            from <= i <= line.len(),
            skip_spaces(line@, i as int) == skip_spaces(line@, from as int),
        decreases line.len() - i,
    {
        if i >= line.len() {
            return i;
        }
        if !is_space_char(line[i]) {
            return i;
        }
        i = i + 1;
    }
}

fn skip_word_from(line: &Vec<char>, from: usize) -> (next: usize)
    requires
        from <= line.len(),
    ensures
        next == skip_word(line@, from as int),
        from <= next <= line.len(),
{
    let mut i = from;
    loop
        invariant
            from <= i <= line.len(),
            skip_word(line@, i as int) == skip_word(line@, from as int),
        decreases line.len() - i,
    {
        if i >= line.len() {
            return i;
        }
        if is_space_char(line[i]) {
            return i;
        }
        i = i + 1;
    }
}

/// The word number `n`, counted from zero, of `line`.
pub fn word(line: &Vec<char>, n: usize) -> (found: Option<Vec<char>>)
    ensures
        match found {
            Some(w) => nth_word(line@, 0, n as nat) == Some(w@),
            None => nth_word(line@, 0, n as nat) is None,
        },
{
    let mut from: usize = 0;
    let mut left: usize = n;
    loop
        invariant
            from <= line.len(),
            nth_word(line@, from as int, left as nat) == nth_word(line@, 0, n as nat),
        decreases left,
    {
        let start = skip_spaces_from(line, from);
        if start >= line.len() {
            return None;
        }
        let end = skip_word_from(line, start);
        if left == 0 {
            let mut w: Vec<char> = Vec::new();
            let mut i = start;
            while i < end
                invariant
                    start <= i <= end <= line.len(),
                    w@ == line@.subrange(start as int, i as int),
                decreases end - i,
            {
                w.push(line[i]);
                i = i + 1;
                assert(w@ =~= line@.subrange(start as int, i as int));
            }
            return Some(w);
        }
        from = end;
        left = left - 1;
    }
}

/// The integer that `word` writes in decimal, if it fits in an `i64`.
pub fn parse_i64(word: &Vec<char>) -> (value: Option<i64>)
    ensures
        match value {
            Some(v) => number_in(Some(word@), i64::MIN as int, i64::MAX as int) == Some(v as int),
            None => number_in(Some(word@), i64::MIN as int, i64::MAX as int) is None,
        },
{
    let len = word.len();
    let signed = len > 0 && (word[0] == '-' || word[0] == '+');
    let negative = len > 0 && word[0] == '-';
    let first: usize = if signed {
        1
    } else {
        0
    };
    let ghost digits = digits_of(word@);
    assert(digits.len() == len - first);
    if first >= len {
        return None;
    }
    let limit: i128 = 0x8000_0000_0000_0000;
    let mut magnitude: i128 = 0;
    let mut over = false;
    let mut i = first;
    while i < len
        invariant
            len == word@.len(),
            first <= i <= len,
            first == if signed { 1usize } else { 0usize },
            signed == (len > 0 && (word@[0] == '-' || word@[0] == '+')),
            digits == digits_of(word@),
            digits.len() == len - first,
            limit == 0x8000_0000_0000_0000,
            forall|k: int| 0 <= k < i - first ==> is_digit(digits[k]),
            digits_value(digits.subrange(0, i - first)) >= 0,
            !over ==> 0 <= magnitude <= limit && magnitude == digits_value(digits.subrange(0, i - first)),
            over ==> digits_value(digits.subrange(0, i - first)) > limit,
        decreases len - i,
    {
        let c = word[i];
        assert(c == digits[i - first]);
        let code = c as u32;
        if code < 48 || code > 57 {
            assert(!is_digit(digits[i - first]));
            return None;
        }
        proof {
            let longer = digits.subrange(0, i - first + 1);
            assert(longer.drop_last() =~= digits.subrange(0, i - first));
            assert(longer.last() == c);
        }
        if !over {
            magnitude = magnitude * 10 + (code - 48) as i128;
            if magnitude > limit {
                over = true;
            }
        }
        i = i + 1;
    }
    assert(digits.subrange(0, len - first) =~= digits);
    if over {
        return None;
    }
    let value: i128 = if negative {
        -magnitude
    } else {
        magnitude
    };
    if value < i64::MIN as i128 || value > i64::MAX as i128 {
        return None;
    }
    Some(value as i64)
}

fn is_mkroom(w: &Vec<char>) -> (same: bool)
    ensures
        same == (w@ == word_mkroom()),
{
    let same = w.len() == 6 && w[0] == 'm' && w[1] == 'k' && w[2] == 'r' && w[3] == 'o' && w[4] == 'o' && w[5]
        == 'm';
    assert(same ==> w@ =~= word_mkroom());
    same
}

fn is_cdroom(w: &Vec<char>) -> (same: bool)
    ensures
        same == (w@ == word_cdroom()),
{
    let same = w.len() == 6 && w[0] == 'c' && w[1] == 'd' && w[2] == 'r' && w[3] == 'o' && w[4] == 'o' && w[5]
        == 'm';
    assert(same ==> w@ =~= word_cdroom());
    same
}

fn is_move(w: &Vec<char>) -> (same: bool)
    ensures
        same == (w@ == word_move()),
{
    let same = w.len() == 4 && w[0] == 'm' && w[1] == 'o' && w[2] == 'v' && w[3] == 'e';
    assert(same ==> w@ =~= word_move());
    same
}

fn is_single(w: &Vec<char>, c: char) -> (same: bool)
    ensures
        same == (w@ == seq![c]),
{
    let same = w.len() == 1 && w[0] == c;
    assert(same ==> w@ =~= seq![c]);
    same
}

/// The number that the word number `n` of `line` writes, if it fits in an `i64`.
fn number_at(line: &Vec<char>, n: usize) -> (value: Option<i64>)
    ensures
        match value {
            Some(v) => number_in(nth_word(line@, 0, n as nat), i64::MIN as int, i64::MAX as int) == Some(
                v as int,
            ),
            None => number_in(nth_word(line@, 0, n as nat), i64::MIN as int, i64::MAX as int) is None,
        },
{
    match word(line, n) {
        Some(w) => parse_i64(&w),
        None => None,
    }
}

/// Reads a line of text as a command.
pub fn parse_line(line: &str) -> (command: UserCommand)
    ensures
        command == parse_command(line@),
{
    let chars = chars_of(line);
    let invalid = UserCommand::General(GeneralCommand::Invalid);
    let head = match word(&chars, 0) {
        Some(head) => head,
        None => {
            return invalid;
        },
    };
    if is_mkroom(&head) {
        match word(&chars, 1) {
            Some(size) => {
                if is_single(&size, '3') {
                    UserCommand::Logged(LoggedCommand::RequestNewRoom(GameRule::TicTacToe))
                } else if is_single(&size, '4') {
                    UserCommand::Logged(LoggedCommand::RequestNewRoom(GameRule::FourBlockOne))
                } else if is_single(&size, '5') {
                    UserCommand::Logged(LoggedCommand::RequestNewRoom(GameRule::FiveBlockTwo))
                } else {
                    invalid
                }
            },
            None => invalid,
        }
    } else if is_cdroom(&head) {
        match number_at(&chars, 1) {
            Some(rid) => {
                if rid < i32::MIN as i64 || rid > i32::MAX as i64 {
                    invalid
                } else {
                    UserCommand::Logged(LoggedCommand::JoinRoom(rid as i32))
                }
            },
            None => invalid,
        }
    } else if is_move(&head) {
        let latitude = number_at(&chars, 1);
        let longtitude = number_at(&chars, 2);
        match (latitude, longtitude) {
            (Some(latitude), Some(longtitude)) => UserCommand::InGame(
                InGameCommand::Move((latitude, longtitude)),
            ),
            _ => invalid,
        }
    } else {
        invalid
    }
}

/// Conversion of an input into the command it stands for.
pub trait ToUserCommand {
    fn to_user_command(self) -> UserCommand;
}

impl ToUserCommand for InputType {
    fn to_user_command(self) -> (command: UserCommand)
        ensures
            command == input_command(self),
    {
        match self {
            InputType::Text(line) => parse_line(line.as_str()),
            InputType::Key(key) => match key {
                KeyType::Up => UserCommand::InGame(InGameCommand::Up),
                KeyType::Down => UserCommand::InGame(InGameCommand::Down),
                KeyType::Left => UserCommand::InGame(InGameCommand::Left),
                KeyType::Right => UserCommand::InGame(InGameCommand::Right),
                KeyType::Esc => UserCommand::InGame(InGameCommand::SwitchInputMode),
                KeyType::Invalid => UserCommand::General(GeneralCommand::Invalid),
            },
        }
    }
}

} // verus!
