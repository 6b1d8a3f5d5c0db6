//! The rule engine: a rectangular board on which two players place marks in
//! turn, with undo and redo of the latest moves, and a win for the player who
//! completes a long enough line that is not blocked.

use vstd::prelude::*;

verus! {

/// A tile of the board: its row and its column, counted from zero.
#[derive(Debug, Clone, Copy, PartialEq, Eq, Structural)]
pub struct Coordinate {
    pub latitude: i64,
    pub longtitude: i64,
}

/// What stands on a tile of the board.
#[derive(Debug, Clone, Copy, PartialEq, Eq, Structural)]
pub enum TileState {
    Empty,
    Player1,
    Player2,
}

/// How a move, an undo or a redo ended.
#[derive(Debug, Clone, Copy, PartialEq, Eq, Structural)]
pub enum MoveResult {
    Success,
    AlreadyOccupied,
    WrongTurn,
    OutOfBound,
}

/// Whose turn it is, or how the game ended, or that no game is running.
#[derive(Debug, Clone, Copy, PartialEq, Eq, Structural)]
pub enum GameState {
    Player1Turn,
    Player2Turn,
    Player1Won,
    Player2Won,
    Drew,
    NotInprogress,
}

/// The rule of a game: how long a winning line is and how blocking counts.
#[derive(Debug, Clone, Copy, PartialEq, Eq, Structural)]
pub enum RuleType {
    TicTacToe,
    FourBlockOne,
    FiveBlockTwo,
}

/// One of the two players.
#[derive(Debug, Clone, Copy, PartialEq, Eq, Structural)]
pub enum Participant {
    Player1,
    Player2,
}

/// The number of marks in a line that wins under `rule`.
pub open spec fn win_length(rule: RuleType) -> int {
    match rule {
        RuleType::TicTacToe => 3,
        RuleType::FourBlockOne => 4,
        RuleType::FiveBlockTwo => 5,
    }
}

/// The number of blocked ends from which on a line no longer wins under `rule`.
/// A line has two ends, so a limit of three means that blocking never matters.
pub open spec fn block_limit(rule: RuleType) -> int {
    match rule {
        RuleType::TicTacToe => 3,
        RuleType::FourBlockOne => 1,
        RuleType::FiveBlockTwo => 2,
    }
}

/// The mark that `who` places.
pub open spec fn mark_of(who: Participant) -> TileState {
    match who {
        Participant::Player1 => TileState::Player1,
        Participant::Player2 => TileState::Player2,
    }
}

/// The other player.
pub open spec fn opponent_of(who: Participant) -> Participant {
    match who {
        Participant::Player1 => Participant::Player2,
        Participant::Player2 => Participant::Player1,
    }
}

/// The state in which it is the turn of `who`.
pub open spec fn turn_of(who: Participant) -> GameState {
    match who {
        Participant::Player1 => GameState::Player1Turn,
        Participant::Player2 => GameState::Player2Turn,
    }
}

/// The state in which `who` has won.
pub open spec fn won_by(who: Participant) -> GameState {
    match who {
        Participant::Player1 => GameState::Player1Won,
        Participant::Player2 => GameState::Player2Won,
    }
}

/// Whether `list` holds the coordinate (`lat`, `long`).
pub open spec fn holds(list: Seq<Coordinate>, lat: int, long: int) -> bool {
    exists|i: int| 0 <= i < list.len() && #[trigger] list[i].latitude == lat && list[i].longtitude == long
}

/// What walking from a tile in one direction finds: how many tiles in a row
/// carry the walker's mark, and whether the tile after them carries the other
/// player's mark.
pub struct Scan {
    pub len: nat,
    pub blocked: bool,
}

/// The state of an engine as a mathematical value.
pub struct CaroModel {
    pub rule: Option<RuleType>,
    pub width: usize,
    pub height: usize,
    pub state: GameState,
    pub moves1: Seq<Coordinate>,
    pub moves2: Seq<Coordinate>,
    pub undone1: Seq<Coordinate>,
    pub undone2: Seq<Coordinate>,
}

impl CaroModel {
    /// Whether the tile lies on the board.
    pub open spec fn in_bounds(self, lat: int, long: int) -> bool {
        0 <= lat < self.height && 0 <= long < self.width
    }

    /// The mark on a tile. A tile that both histories name counts for player one.
    pub open spec fn tile(self, lat: int, long: int) -> TileState {
        if holds(self.moves1, lat, long) {
            TileState::Player1
        } else if holds(self.moves2, lat, long) {
            TileState::Player2
        } else {
            TileState::Empty
        }
    }

    /// The moves of `who` that stand, oldest first.
    pub open spec fn moves(self, who: Participant) -> Seq<Coordinate> {
        match who {
            Participant::Player1 => self.moves1,
            Participant::Player2 => self.moves2,
        }
    }

    /// The moves that `who` took back, the latest last.
    pub open spec fn undone(self, who: Participant) -> Seq<Coordinate> {
        match who {
            Participant::Player1 => self.undone1,
            Participant::Player2 => self.undone2,
        }
    }

    /// The engine with the history of `who` replaced.
    pub open spec fn with_moves(self, who: Participant, moves: Seq<Coordinate>) -> CaroModel {
        match who {
            Participant::Player1 => CaroModel { moves1: moves, ..self },
            Participant::Player2 => CaroModel { moves2: moves, ..self },
        }
    }

    /// The engine with the undone moves of `who` replaced.
    pub open spec fn with_undone(self, who: Participant, undone: Seq<Coordinate>) -> CaroModel {
        match who {
            Participant::Player1 => CaroModel { undone1: undone, ..self },
            Participant::Player2 => CaroModel { undone2: undone, ..self },
        }
    }

    /// Every move lies on the board and no tile was taken twice.
    pub open spec fn wf(self) -> bool {
        &&& forall|i: int| 0 <= i < self.moves1.len() ==> self.in_bounds(
            #[trigger] self.moves1[i].latitude as int,
            self.moves1[i].longtitude as int,
        )
        &&& forall|i: int| 0 <= i < self.moves2.len() ==> self.in_bounds(
            #[trigger] self.moves2[i].latitude as int,
            self.moves2[i].longtitude as int,
        )
        &&& forall|i: int, j: int| 0 <= i < j < self.moves1.len() ==> self.moves1[i] != self.moves1[j]
        &&& forall|i: int, j: int| 0 <= i < j < self.moves2.len() ==> self.moves2[i] != self.moves2[j]
        &&& forall|i: int, j: int| 0 <= i < self.moves1.len() && 0 <= j < self.moves2.len()
            ==> self.moves1[i] != self.moves2[j]
    }

    /// The number of steps that no line on the board exceeds.
    pub open spec fn reach(self) -> nat {
        (self.width + self.height) as nat
    }

    /// Walks from (`lat`, `long`), not counting that tile, in steps of
    /// (`dlat`, `dlong`), for at most `reach` steps.
    pub open spec fn scan(self, mark: TileState, lat: int, long: int, dlat: int, dlong: int, reach: nat) -> Scan
        decreases reach,
    {
        let next_lat = lat + dlat;
        let next_long = long + dlong;
        if reach > 0 && self.in_bounds(next_lat, next_long) && self.tile(next_lat, next_long) == mark {
            let rest = self.scan(mark, next_lat, next_long, dlat, dlong, (reach - 1) as nat);
            Scan { len: rest.len + 1, blocked: rest.blocked }
        } else {
            Scan {
                len: 0,
                blocked: self.in_bounds(next_lat, next_long) && self.tile(next_lat, next_long) != mark
                    && self.tile(next_lat, next_long) != TileState::Empty,
            }
        }
    }

    /// Whether the line through (`lat`, `long`) along (`dlat`, `dlong`) wins for
    /// `mark`: it is long enough and fewer of its ends are blocked than the rule
    /// tolerates.
    pub open spec fn line_wins(self, rule: RuleType, mark: TileState, lat: int, long: int, dlat: int, dlong: int) -> bool {
        let ahead = self.scan(mark, lat, long, dlat, dlong, self.reach());
        let behind = self.scan(mark, lat, long, -dlat, -dlong, self.reach());
        let blocked_ends: int = if ahead.blocked { 1int } else { 0int } + if behind.blocked { 1int } else { 0int };
        1 + ahead.len + behind.len >= win_length(rule) && blocked_ends < block_limit(rule)
    }

    /// Whether a mark of `who` on (`lat`, `long`) completes a winning line:
    /// along a row, a column or one of the two diagonals.
    pub open spec fn wins_at(self, who: Participant, lat: int, long: int) -> bool {
        match self.rule {
            None => false,
            Some(rule) => {
                ||| self.line_wins(rule, mark_of(who), lat, long, 0, 1)
                ||| self.line_wins(rule, mark_of(who), lat, long, 1, 0)
                ||| self.line_wins(rule, mark_of(who), lat, long, 1, 1)
                ||| self.line_wins(rule, mark_of(who), lat, long, 1, -1)
            },
        }
    }

    /// Whether as many moves stand as the board has tiles.
    pub open spec fn board_full(self) -> bool {
        self.moves1.len() + self.moves2.len() >= self.width * self.height
    }

    /// The state after `who` has placed a mark on `pos`, which is already in the
    /// history: won, drawn, or `otherwise`.
    pub open spec fn state_after_mark(self, who: Participant, pos: Coordinate, otherwise: GameState) -> GameState {
        if self.wins_at(who, pos.latitude as int, pos.longtitude as int) {
            won_by(who)
        } else if self.board_full() {
            GameState::Drew
        } else {
            otherwise
        }
    }

    /// Why a mark of `who` on `pos` is refused, or `Success`.
    pub open spec fn check_move(self, who: Participant, pos: Coordinate) -> MoveResult {
        if self.state != turn_of(who) {
            MoveResult::WrongTurn
        } else if !self.in_bounds(pos.latitude as int, pos.longtitude as int) {
            MoveResult::OutOfBound
        } else if self.tile(pos.latitude as int, pos.longtitude as int) != TileState::Empty {
            MoveResult::AlreadyOccupied
        } else {
            MoveResult::Success
        }
    }

    /// The engine after `player_move`. A legal move joins the mover's history,
    /// empties both stacks of undone moves and may end the game; it leaves the
    /// turn with the mover. Any other move changes nothing.
    pub open spec fn after_move(self, who: Participant, pos: Coordinate) -> CaroModel {
        if self.check_move(who, pos) == MoveResult::Success {
            let marked = CaroModel {
                undone1: Seq::empty(),
                undone2: Seq::empty(),
                ..self.with_moves(who, self.moves(who).push(pos))
            };
            CaroModel { state: marked.state_after_mark(who, pos, self.state), ..marked }
        } else {
            self
        }
    }

    /// Why an undo by `who` is refused, or `Success`: the turn must be the
    /// opponent's, so that the latest move is one of `who`, and `who` must have moved.
    pub open spec fn check_undo(self, who: Participant) -> MoveResult {
        if self.state != turn_of(opponent_of(who)) {
            MoveResult::WrongTurn
        } else if self.moves(who).len() == 0 {
            MoveResult::OutOfBound
        } else {
            MoveResult::Success
        }
    }

    /// The engine after `player_undo`: the latest move of `who` goes from the
    /// history onto the stack of undone moves, and the turn returns to `who`.
    pub open spec fn after_undo(self, who: Participant) -> CaroModel {
        if self.check_undo(who) == MoveResult::Success {
            let last = self.moves(who).last();
            CaroModel {
                state: turn_of(who),
                ..self.with_moves(who, self.moves(who).drop_last()).with_undone(who, self.undone(who).push(last))
            }
        } else {
            self
        }
    }

    /// Why a redo by `who` is refused, or `Success`: it must be the turn of
    /// `who`, an undone move must wait, and its tile must be free and on the board.
    pub open spec fn check_redo(self, who: Participant) -> MoveResult {
        if self.state != turn_of(who) {
            MoveResult::WrongTurn
        } else if self.undone(who).len() == 0 {
            MoveResult::OutOfBound
        } else {
            self.check_move(who, self.undone(who).last())
        }
    }

    /// The engine after `player_redo`: the move on top of the stack of `who`
    /// returns to the history; the game may end by it, else the turn passes on.
    pub open spec fn after_redo(self, who: Participant) -> CaroModel {
        if self.check_redo(who) == MoveResult::Success {
            let pos = self.undone(who).last();
            let marked = self.with_moves(who, self.moves(who).push(pos)).with_undone(
                who,
                self.undone(who).drop_last(),
            );
            CaroModel { state: marked.state_after_mark(who, pos, turn_of(opponent_of(who))), ..marked }
        } else {
            self
        }
    }

    /// The engine after `switch_turn`: the turn passes on; a game that is not
    /// running stays as it is.
    pub open spec fn after_switch_turn(self) -> CaroModel {
        match self.state {
            GameState::Player1Turn => CaroModel { state: GameState::Player2Turn, ..self },
            GameState::Player2Turn => CaroModel { state: GameState::Player1Turn, ..self },
            _ => self,
        }
    }

    /// The engine after `start`: an empty board and the turn that `first` names.
    /// A `first` that is no turn changes nothing.
    pub open spec fn after_start(self, first: GameState) -> CaroModel {
        if first == GameState::Player1Turn || first == GameState::Player2Turn {
            CaroModel {
                state: first,
                moves1: Seq::empty(),
                moves2: Seq::empty(),
                undone1: Seq::empty(),
                undone2: Seq::empty(),
                ..self
            }
        } else {
            self
        }
    }

    /// An engine of the given size with an empty board and no game running.
    pub open spec fn after_resize(self, width: usize, height: usize) -> CaroModel {
        CaroModel {
            width,
            height,
            state: GameState::NotInprogress,
            moves1: Seq::empty(),
            moves2: Seq::empty(),
            undone1: Seq::empty(),
            undone2: Seq::empty(),
            ..self
        }
    }
}


/// A copy of a list of coordinates.
pub fn copy_moves(list: &Vec<Coordinate>) -> (copy: Vec<Coordinate>)
    ensures
        copy@ == list@,
{
    let mut copy: Vec<Coordinate> = Vec::new();
    let mut i: usize = 0;
    while i < list.len()
        invariant
            i <= list.len(),
            copy@ == list@.subrange(0, i as int),
        decreases list.len() - i,
    {
        copy.push(list[i]);
        i = i + 1;
        assert(copy@ =~= list@.subrange(0, i as int));
    }
    assert(list@.subrange(0, list.len() as int) =~= list@);
    copy
}

/// Whether `list` holds the coordinate (`lat`, `long`).
fn list_holds(list: &Vec<Coordinate>, lat: i128, long: i128) -> (found: bool)
    ensures
        found == holds(list@, lat as int, long as int),
{
    let mut i: usize = 0;
    while i < list.len()
        invariant
            i <= list.len(),
            forall|j: int| 0 <= j < i ==> !(#[trigger] list@[j].latitude == lat && list@[j].longtitude == long),
        decreases list.len() - i,
    {
        if list[i].latitude as i128 == lat && list[i].longtitude as i128 == long {
            return true;
        }
        i = i + 1;
    }
    false
}

/// The engine: the rule, the board's size, the state of the game, and for each
/// player the moves that stand and the moves that were undone.
pub struct SimpleCaro {
    rule: Option<RuleType>,
    width: usize,
    height: usize,
    state: GameState,
    moves1: Vec<Coordinate>,
    moves2: Vec<Coordinate>,
    undone1: Vec<Coordinate>,
    undone2: Vec<Coordinate>,
}

impl View for SimpleCaro {
    type V = CaroModel;

    closed spec fn view(&self) -> CaroModel {
        CaroModel {
            rule: self.rule,
            width: self.width,
            height: self.height,
            state: self.state,
            moves1: self.moves1@,
            moves2: self.moves2@,
            undone1: self.undone1@,
            undone2: self.undone2@,
        }
    }
}

impl SimpleCaro {
    /// An engine without a rule, with a board of no tiles and no game running.
    pub fn new() -> (game: Self)
        ensures
            game@ == (CaroModel {
                rule: None,
                width: 0,
                height: 0,
                state: GameState::NotInprogress,
                moves1: Seq::empty(),
                moves2: Seq::empty(),
                undone1: Seq::empty(),
                undone2: Seq::empty(),
            }),
            game@.wf(),
    {
        Self {
            rule: None,
            width: 0,
            height: 0,
            state: GameState::NotInprogress,
            moves1: Vec::new(),
            moves2: Vec::new(),
            undone1: Vec::new(),
            undone2: Vec::new(),
        }
    }

    /// Gives the board a new size. The board is emptied and no game runs on it.
    pub fn set_board_size(&mut self, width: usize, height: usize)
        ensures
            final(self)@ == old(self)@.after_resize(width, height),
            final(self)@.wf(),
    {
        self.width = width;
        self.height = height;
        self.state = GameState::NotInprogress;
        self.moves1 = Vec::new();
        self.moves2 = Vec::new();
        self.undone1 = Vec::new();
        self.undone2 = Vec::new();
    }

    pub fn get_board_width(&self) -> (width: usize)
        ensures
            width == self@.width,
    {
        self.width
    }

    pub fn get_board_height(&self) -> (height: usize)
        ensures
            height == self@.height,
    {
        self.height
    }

    pub fn set_rule(&mut self, rule: RuleType)
        ensures
            final(self)@ == (CaroModel { rule: Some(rule), ..old(self)@ }),
    {
        self.rule = Some(rule);
    }

    pub fn unset_rule(&mut self)
        ensures
            final(self)@ == (CaroModel { rule: None, ..old(self)@ }),
    {
        self.rule = None;
    }

    /// Starts a game on an empty board with the turn that `first_turn_state`
    /// names. Any other state is ignored.
    pub fn start(&mut self, first_turn_state: GameState)
        ensures
            final(self)@ == old(self)@.after_start(first_turn_state),
            old(self)@.wf() ==> final(self)@.wf(),
    {
        match first_turn_state {
            GameState::Player1Turn | GameState::Player2Turn => {
                self.state = first_turn_state;
                self.moves1 = Vec::new();
                self.moves2 = Vec::new();
                self.undone1 = Vec::new();
                self.undone2 = Vec::new();
            },
            _ => {},
        }
    }

    /// Ends the game without a result. The board stays as it is.
    pub fn stop(&mut self)
        ensures
            final(self)@ == (CaroModel { state: GameState::NotInprogress, ..old(self)@ }),
    {
        self.state = GameState::NotInprogress;
    }

    pub fn get_state(&self) -> (state: GameState)
        ensures
            state == self@.state,
    {
        self.state
    }

    /// Whether the game has ended with a result: a win or a draw.
    pub fn is_over(&self) -> (over: bool)
        ensures
            over == (self@.state == GameState::Player1Won || self@.state == GameState::Player2Won
                || self@.state == GameState::Drew),
    {
        match self.state {
            GameState::Player1Won | GameState::Player2Won | GameState::Drew => true,
            _ => false,
        }
    }

    pub fn get_moves_history(&self, who: Participant) -> (history: Vec<Coordinate>)
        ensures
            history@ == self@.moves(who),
    {
        match who {
            Participant::Player1 => copy_moves(&self.moves1),
            Participant::Player2 => copy_moves(&self.moves2),
        }
    }

    pub fn get_undone_moves(&self, who: Participant) -> (undone: Vec<Coordinate>)
        ensures
            undone@ == self@.undone(who),
    {
        match who {
            Participant::Player1 => copy_moves(&self.undone1),
            Participant::Player2 => copy_moves(&self.undone2),
        }
    }

    fn within(&self, lat: i128, long: i128) -> (inside: bool)
        ensures
            inside == self@.in_bounds(lat as int, long as int),
    {
        0 <= lat && lat < self.height as i128 && 0 <= long && long < self.width as i128
    }

    fn tile_at(&self, lat: i128, long: i128) -> (tile: TileState)
        ensures
            tile == self@.tile(lat as int, long as int),
    {
        if list_holds(&self.moves1, lat, long) {
            TileState::Player1
        } else if list_holds(&self.moves2, lat, long) {
            TileState::Player2
        } else {
            TileState::Empty
        }
    }

    /// The mark on the tile in row `latitude` and column `longtitude`, counted
    /// from zero; `Empty` for a tile off the board.
    pub fn get_board_tile(&self, latitude: usize, longtitude: usize) -> (tile: TileState)
        ensures
            tile == self@.tile(latitude as int, longtitude as int),
    {
        self.tile_at(latitude as i128, longtitude as i128)
    }

    /// The number of moves that stand, or `i64::MAX` if there are more.
    pub fn occupied_tiles_count(&self) -> (count: i64)
        ensures
            count == if self@.moves1.len() + self@.moves2.len() <= i64::MAX {
                (self@.moves1.len() + self@.moves2.len()) as int
            } else {
                i64::MAX as int
            },
    {
        let total: u128 = self.moves1.len() as u128 + self.moves2.len() as u128;
        if total <= i64::MAX as u128 {
            total as i64
        } else {
            i64::MAX
        }
    }
}


impl SimpleCaro {
    fn scan_line(&self, mark: TileState, lat: i128, long: i128, dlat: i128, dlong: i128) -> (found: (u128, bool))
        requires
            -1 <= dlat <= 1,
            -1 <= dlong <= 1,
            -1 <= lat <= i64::MAX,
            -1 <= long <= i64::MAX,
        ensures
            found.0 == self@.scan(mark, lat as int, long as int, dlat as int, dlong as int, self@.reach()).len,
            found.1 == self@.scan(mark, lat as int, long as int, dlat as int, dlong as int, self@.reach()).blocked,
            found.0 <= self@.reach(),
    {
        let reach: u128 = self.width as u128 + self.height as u128;
        let mut steps: u128 = 0;
        let mut cur_lat: i128 = lat;
        let mut cur_long: i128 = long;
        let ghost whole = self@.scan(mark, lat as int, long as int, dlat as int, dlong as int, self@.reach());
        loop
            invariant
                reach == self@.reach(),
                whole == self@.scan(mark, lat as int, long as int, dlat as int, dlong as int, self@.reach()),
                -1 <= dlat <= 1,
                -1 <= dlong <= 1,
                steps <= reach,
                lat - steps <= cur_lat <= lat + steps,
                long - steps <= cur_long <= long + steps,
                -1 <= lat <= i64::MAX,
                -1 <= long <= i64::MAX,
                whole.blocked == self@.scan(
                    mark,
                    cur_lat as int,
                    cur_long as int,
                    dlat as int,
                    dlong as int,
                    (reach - steps) as nat,
                ).blocked,
                whole.len == steps + self@.scan(
                    mark,
                    cur_lat as int,
                    cur_long as int,
                    dlat as int,
                    dlong as int,
                    (reach - steps) as nat,
                ).len,
            decreases reach - steps,
        {
            let next_lat = cur_lat + dlat;
            let next_long = cur_long + dlong;
            let inside = self.within(next_lat, next_long);
            let tile = if inside {
                self.tile_at(next_lat, next_long)
            } else {
                TileState::Empty
            };
            if steps < reach && inside && tile == mark {
                steps = steps + 1;
                cur_lat = next_lat;
                cur_long = next_long;
            } else {
                let blocked = inside && tile != mark && tile != TileState::Empty;
                return (steps, blocked);
            }
        }
    }

    fn line_wins(&self, rule: RuleType, mark: TileState, lat: i128, long: i128, dlat: i128, dlong: i128) -> (wins: bool)
        requires
            -1 <= dlat <= 1,
            -1 <= dlong <= 1,
            0 <= lat <= i64::MAX,
            0 <= long <= i64::MAX,
        ensures
            wins == self@.line_wins(rule, mark, lat as int, long as int, dlat as int, dlong as int),
    {
        let (ahead_len, ahead_blocked) = self.scan_line(mark, lat, long, dlat, dlong);
        let (behind_len, behind_blocked) = self.scan_line(mark, lat, long, -dlat, -dlong);
        let needed: u128 = match rule {
            RuleType::TicTacToe => 3,
            RuleType::FourBlockOne => 4,
            RuleType::FiveBlockTwo => 5,
        };
        let limit: u8 = match rule {
            RuleType::TicTacToe => 3,
            RuleType::FourBlockOne => 1,
            RuleType::FiveBlockTwo => 2,
        };
        let mut blocked_ends: u8 = 0;
        if ahead_blocked {
            blocked_ends = blocked_ends + 1;
        }
        if behind_blocked {
            blocked_ends = blocked_ends + 1;
        }
        1 + ahead_len + behind_len >= needed && blocked_ends < limit
    }

    fn wins_at(&self, who: Participant, lat: i128, long: i128) -> (wins: bool)
        requires
            0 <= lat <= i64::MAX,
            0 <= long <= i64::MAX,
        ensures
            wins == self@.wins_at(who, lat as int, long as int),
    {
        let mark = match who {
            Participant::Player1 => TileState::Player1,
            Participant::Player2 => TileState::Player2,
        };
        match self.rule {
            None => false,
            Some(rule) => {
                self.line_wins(rule, mark, lat, long, 0, 1) || self.line_wins(rule, mark, lat, long, 1, 0)
                    || self.line_wins(rule, mark, lat, long, 1, 1) || self.line_wins(
                    rule,
                    mark,
                    lat,
                    long,
                    1,
                    -1,
                )
            },
        }
    }

    fn board_full(&self) -> (full: bool)
        ensures
            full == self@.board_full(),
    {
        let placed: u128 = self.moves1.len() as u128 + self.moves2.len() as u128;
        let width: u128 = self.width as u128;
        let height: u128 = self.height as u128;
        assert(width * height <= 0xffff_ffff_ffff_ffff * 0xffff_ffff_ffff_ffff) by (nonlinear_arith)
            requires
                0 <= width <= 0xffff_ffff_ffff_ffff,
                0 <= height <= 0xffff_ffff_ffff_ffff,
        ;
        placed >= width * height
    }

    fn state_after_mark(&self, who: Participant, pos: Coordinate, otherwise: GameState) -> (state: GameState)
        requires
            0 <= pos.latitude,
            0 <= pos.longtitude,
        ensures
            state == self@.state_after_mark(who, pos, otherwise),
    {
        if self.wins_at(who, pos.latitude as i128, pos.longtitude as i128) {
            match who {
                Participant::Player1 => GameState::Player1Won,
                Participant::Player2 => GameState::Player2Won,
            }
        } else if self.board_full() {
            GameState::Drew
        } else {
            otherwise
        }
    }

    fn check_move(&self, who: Participant, pos: Coordinate) -> (result: MoveResult)
        ensures
            result == self@.check_move(who, pos),
    {
        let turn = match who {
            Participant::Player1 => GameState::Player1Turn,
            Participant::Player2 => GameState::Player2Turn,
        };
        if self.state != turn {
            MoveResult::WrongTurn
        } else if !self.within(pos.latitude as i128, pos.longtitude as i128) {
            MoveResult::OutOfBound
        } else if self.tile_at(pos.latitude as i128, pos.longtitude as i128) != TileState::Empty {
            MoveResult::AlreadyOccupied
        } else {
            MoveResult::Success
        }
    }
}


/// A list that names no tile twice still does so without its last entry, and a
/// board stays well formed when a move leaves it.
proof fn lemma_wf_without_last(before: CaroModel, who: Participant)
    requires
        before.wf(),
        before.moves(who).len() > 0,
    ensures
        before.with_moves(who, before.moves(who).drop_last()).wf(),
{
    let after = before.with_moves(who, before.moves(who).drop_last());
    assert forall|i: int| 0 <= i < after.moves1.len() implies after.in_bounds(
        #[trigger] after.moves1[i].latitude as int,
        after.moves1[i].longtitude as int,
    ) by {
        assert(after.moves1[i] == before.moves1[i]);
    }
    assert forall|i: int| 0 <= i < after.moves2.len() implies after.in_bounds(
        #[trigger] after.moves2[i].latitude as int,
        after.moves2[i].longtitude as int,
    ) by {
        assert(after.moves2[i] == before.moves2[i]);
    }
}

/// A board stays well formed when a mark is placed on a free tile of it.
proof fn lemma_wf_with_mark(before: CaroModel, who: Participant, pos: Coordinate)
    requires
        before.wf(),
        before.in_bounds(pos.latitude as int, pos.longtitude as int),
        before.tile(pos.latitude as int, pos.longtitude as int) == TileState::Empty,
    ensures
        before.with_moves(who, before.moves(who).push(pos)).wf(),
{
    let after = before.with_moves(who, before.moves(who).push(pos));
    assert forall|i: int| 0 <= i < before.moves1.len() implies before.moves1[i] != pos by {
        if before.moves1[i] == pos {
            assert(before.moves1[i].latitude == pos.latitude && before.moves1[i].longtitude == pos.longtitude);
            assert(holds(before.moves1, pos.latitude as int, pos.longtitude as int));
        }
    }
    assert forall|i: int| 0 <= i < before.moves2.len() implies before.moves2[i] != pos by {
        if before.moves2[i] == pos {
            assert(before.moves2[i].latitude == pos.latitude && before.moves2[i].longtitude == pos.longtitude);
            assert(holds(before.moves2, pos.latitude as int, pos.longtitude as int));
        }
    }
    assert forall|i: int| 0 <= i < after.moves1.len() implies after.in_bounds(
        #[trigger] after.moves1[i].latitude as int,
        after.moves1[i].longtitude as int,
    ) by {
        if i < before.moves1.len() {
            assert(after.moves1[i] == before.moves1[i]);
        }
    }
    assert forall|i: int| 0 <= i < after.moves2.len() implies after.in_bounds(
        #[trigger] after.moves2[i].latitude as int,
        after.moves2[i].longtitude as int,
    ) by {
        if i < before.moves2.len() {
            assert(after.moves2[i] == before.moves2[i]);
        }
    }
}

impl SimpleCaro {
    /// Places a mark of `who` on `pos` if the move is legal, and says why not
    /// otherwise. The turn does not pass on by this call: see `switch_turn`.
    pub fn player_move(&mut self, who: Participant, pos: Coordinate) -> (result: MoveResult)
        ensures
            result == old(self)@.check_move(who, pos),
            final(self)@ == old(self)@.after_move(who, pos),
            old(self)@.wf() ==> final(self)@.wf(),
    {
        let result = self.check_move(who, pos);
        match result {
            MoveResult::Success => {
                proof {
                    if old(self)@.wf() {
                        lemma_wf_with_mark(old(self)@, who, pos);
                    }
                }
                match who {
                    Participant::Player1 => self.moves1.push(pos),
                    Participant::Player2 => self.moves2.push(pos),
                }
                self.undone1 = Vec::new();
                self.undone2 = Vec::new();
                let state = self.state_after_mark(who, pos, self.state);
                self.state = state;
                MoveResult::Success
            },
            _ => result,
        }
    }

    /// Takes back the latest move of `who` if that is the latest move of the
    /// game, and says why not otherwise.
    pub fn player_undo(&mut self, who: Participant) -> (result: MoveResult)
        ensures
            result == old(self)@.check_undo(who),
            final(self)@ == old(self)@.after_undo(who),
            old(self)@.wf() ==> final(self)@.wf(),
    {
        let (other_turn, own_turn) = match who {
            Participant::Player1 => (GameState::Player2Turn, GameState::Player1Turn),
            Participant::Player2 => (GameState::Player1Turn, GameState::Player2Turn),
        };
        if self.state != other_turn {
            return MoveResult::WrongTurn;
        }
        let popped = match who {
            Participant::Player1 => self.moves1.pop(),
            Participant::Player2 => self.moves2.pop(),
        };
        match popped {
            Some(last) => {
                proof {
                    if old(self)@.wf() {
                        lemma_wf_without_last(old(self)@, who);
                    }
                }
                match who {
                    Participant::Player1 => self.undone1.push(last),
                    Participant::Player2 => self.undone2.push(last),
                }
                self.state = own_turn;
                MoveResult::Success
            },
            None => MoveResult::OutOfBound,
        }
    }

    /// Plays again the move that `who` took back last, if it is the turn of
    /// `who` and the move is still legal, and says why not otherwise.
    pub fn player_redo(&mut self, who: Participant) -> (result: MoveResult)
        ensures
            result == old(self)@.check_redo(who),
            final(self)@ == old(self)@.after_redo(who),
            old(self)@.wf() ==> final(self)@.wf(),
    {
        let (other_turn, own_turn) = match who {
            Participant::Player1 => (GameState::Player2Turn, GameState::Player1Turn),
            Participant::Player2 => (GameState::Player1Turn, GameState::Player2Turn),
        };
        if self.state != own_turn {
            return MoveResult::WrongTurn;
        }
        let waiting = match who {
            Participant::Player1 => self.undone1.len(),
            Participant::Player2 => self.undone2.len(),
        };
        if waiting == 0 {
            return MoveResult::OutOfBound;
        }
        let pos = match who {
            Participant::Player1 => self.undone1[waiting - 1],
            Participant::Player2 => self.undone2[waiting - 1],
        };
        let result = self.check_move(who, pos);
        match result {
            MoveResult::Success => {
                proof {
                    if old(self)@.wf() {
                        lemma_wf_with_mark(old(self)@, who, pos);
                    }
                }
                match who {
                    Participant::Player1 => {
                        self.undone1.pop();
                        self.moves1.push(pos);
                    },
                    Participant::Player2 => {
                        self.undone2.pop();
                        self.moves2.push(pos);
                    },
                }
                let state = self.state_after_mark(who, pos, other_turn);
                self.state = state;
                MoveResult::Success
            },
            _ => result,
        }
    }

    /// Passes the turn on. A game that is not running stays as it is.
    pub fn switch_turn(&mut self)
        ensures
            final(self)@ == old(self)@.after_switch_turn(),
            old(self)@.wf() ==> final(self)@.wf(),
    {
        match self.state {
            GameState::Player1Turn => {
                self.state = GameState::Player2Turn;
            },
            GameState::Player2Turn => {
                self.state = GameState::Player1Turn;
            },
            _ => {},
        }
    }

    /// The marks of the row `latitude`, from the first column on. A row off the
    /// board has no tiles.
    pub fn get_board_row(&self, latitude: usize) -> (row: Vec<TileState>)
        ensures
            row@.len() == if latitude < self@.height { self@.width as int } else { 0 },
            forall|j: int| 0 <= j < row@.len() ==> row@[j] == self@.tile(latitude as int, j),
    {
        let mut row: Vec<TileState> = Vec::new();
        if latitude >= self.height {
            return row;
        }
        let mut j: usize = 0;
        while j < self.width
            invariant
                j <= self.width,
                row@.len() == j,
                forall|k: int| 0 <= k < j ==> row@[k] == self@.tile(latitude as int, k),
            decreases self.width - j,
        {
            row.push(self.tile_at(latitude as i128, j as i128));
            j = j + 1;
        }
        row
    }

    /// The marks of the column `longtitude`, from the first row on. A column off
    /// the board has no tiles.
    pub fn get_board_column(&self, longtitude: usize) -> (column: Vec<TileState>)
        ensures
            column@.len() == if longtitude < self@.width { self@.height as int } else { 0 },
            forall|i: int| 0 <= i < column@.len() ==> column@[i] == self@.tile(i, longtitude as int),
    {
        let mut column: Vec<TileState> = Vec::new();
        if longtitude >= self.width {
            return column;
        }
        let mut i: usize = 0;
        while i < self.height
            invariant
                i <= self.height,
                column@.len() == i,
                forall|k: int| 0 <= k < i ==> column@[k] == self@.tile(k, longtitude as int),
            decreases self.height - i,
        {
            column.push(self.tile_at(i as i128, longtitude as i128));
            i = i + 1;
        }
        column
    }
}


/// Two engines with the same board, that is the same size and the same
/// histories, show the same mark on every tile.
pub open spec fn same_board(a: CaroModel, b: CaroModel) -> bool {
    &&& a.width == b.width
    &&& a.height == b.height
    &&& a.moves1 == b.moves1
    &&& a.moves2 == b.moves2
}

/// A walk over the board finds the same on two engines with the same board.
pub proof fn lemma_same_board_same_scan(
    a: CaroModel,
    b: CaroModel,
    mark: TileState,
    lat: int,
    long: int,
    dlat: int,
    dlong: int,
    reach: nat,
)
    requires
        same_board(a, b),
    ensures
        a.scan(mark, lat, long, dlat, dlong, reach) == b.scan(mark, lat, long, dlat, dlong, reach),
    decreases reach,
{
    if reach > 0 {
        lemma_same_board_same_scan(a, b, mark, lat + dlat, long + dlong, dlat, dlong, (reach - 1) as nat);
    }
}

/// Whether a mark wins depends on the board and the rule alone.
pub proof fn lemma_same_board_same_win(a: CaroModel, b: CaroModel, who: Participant, lat: int, long: int)
    requires
        same_board(a, b),
        a.rule == b.rule,
    ensures
        a.wins_at(who, lat, long) == b.wins_at(who, lat, long),
        a.board_full() == b.board_full(),
{
    let mark = mark_of(who);
    lemma_same_board_same_scan(a, b, mark, lat, long, 0, 1, a.reach());
    lemma_same_board_same_scan(a, b, mark, lat, long, 0, -1, a.reach());
    lemma_same_board_same_scan(a, b, mark, lat, long, 1, 0, a.reach());
    lemma_same_board_same_scan(a, b, mark, lat, long, -1, 0, a.reach());
    lemma_same_board_same_scan(a, b, mark, lat, long, 1, 1, a.reach());
    lemma_same_board_same_scan(a, b, mark, lat, long, -1, -1, a.reach());
    lemma_same_board_same_scan(a, b, mark, lat, long, 1, -1, a.reach());
    lemma_same_board_same_scan(a, b, mark, lat, long, -1, 1, a.reach());
}

/// On a well-formed board the latest move of a player stands on a tile that is
/// on the board and that no other move names.
pub proof fn lemma_last_move_is_free_without_it(board: CaroModel, who: Participant)
    requires
        board.wf(),
        board.moves(who).len() > 0,
    ensures
        ({
            let last = board.moves(who).last();
            let without = board.with_moves(who, board.moves(who).drop_last());
            &&& without.wf()
            &&& without.in_bounds(last.latitude as int, last.longtitude as int)
            &&& without.tile(last.latitude as int, last.longtitude as int) == TileState::Empty
        }),
{
    let last = board.moves(who).last();
    let without = board.with_moves(who, board.moves(who).drop_last());
    lemma_wf_without_last(board, who);
    let n = board.moves(who).len() - 1;
    assert(board.moves(who)[n] == last);
    assert(board.in_bounds(last.latitude as int, last.longtitude as int)) by {
        match who {
            Participant::Player1 => {
                assert(board.in_bounds(board.moves1[n].latitude as int, board.moves1[n].longtitude as int));
            },
            Participant::Player2 => {
                assert(board.in_bounds(board.moves2[n].latitude as int, board.moves2[n].longtitude as int));
            },
        }
    }
    if holds(without.moves1, last.latitude as int, last.longtitude as int) {
        let i = choose|i: int|
            0 <= i < without.moves1.len() && #[trigger] without.moves1[i].latitude == last.latitude
                && without.moves1[i].longtitude == last.longtitude;
        assert(without.moves1[i] == last);
        match who {
            Participant::Player1 => {
                assert(board.moves1[i] == board.moves1[n]);
            },
            Participant::Player2 => {
                assert(board.moves1[i] == board.moves2[n]);
            },
        }
    }
    if holds(without.moves2, last.latitude as int, last.longtitude as int) {
        let j = choose|j: int|
            0 <= j < without.moves2.len() && #[trigger] without.moves2[j].latitude == last.latitude
                && without.moves2[j].longtitude == last.longtitude;
        assert(without.moves2[j] == last);
        match who {
            Participant::Player1 => {
                assert(board.moves1[n] == board.moves2[j]);
            },
            Participant::Player2 => {
                assert(board.moves2[j] == board.moves2[n]);
            },
        }
    }
}


/// Every step of a game keeps a well-formed board well formed.
pub proof fn lemma_steps_keep_wf(board: CaroModel, who: Participant, pos: Coordinate, first: GameState)
    requires
        board.wf(),
    ensures
        board.after_move(who, pos).wf(),
        board.after_undo(who).wf(),
        board.after_redo(who).wf(),
        board.after_switch_turn().wf(),
        board.after_start(first).wf(),
        (CaroModel { state: GameState::NotInprogress, ..board }).wf(),
{
    if board.check_move(who, pos) == MoveResult::Success {
        lemma_wf_with_mark(board, who, pos);
    }
    if board.check_undo(who) == MoveResult::Success {
        lemma_wf_without_last(board, who);
    }
    if board.check_redo(who) == MoveResult::Success {
        lemma_wf_with_mark(board, who, board.undone(who).last());
    }
}

} // verus!
