//! What a client shows of a game: the part of the board that is on screen, the
//! cursor, and both players' moves.

use vstd::prelude::*;
use crate::caro_protocol::{
    Coordinate, GameContext, GameContextView, Latitude, Longtitude, PlayerOrder, PlayerState, Row,
    TileState,
};

verus! {

/// The number of board rows that fit on the screen.
pub const BOARD_HEIGHT: usize = 15;

/// The number of board columns that fit on the screen.
pub const BOARD_WIDTH: usize = 25;

/// The largest latitude that the cursor can reach.
pub const LATITUDE_LIMIT: usize = 1024;

/// The largest longitude that the cursor can reach.
pub const LONGTITUDE_LIMIT: usize = 1024;

/// The number of board rows that a plain listing of the board shows at most.
pub const SCREEN_HEIGHT: usize = 10;

/// The number of board columns that a plain listing of the board shows at most.
pub const SCREEN_WIDTH: usize = 10;

/// The screen that belongs to a phase of the player's life.
#[derive(Debug, Clone, Copy, PartialEq, Eq, Structural)]
pub enum ScreenType {
    Menu,
    InRoom,
    InGame,
}

pub open spec fn spec_screen_type(state: PlayerState) -> ScreenType {
    match state {
        PlayerState::Logged(_) => ScreenType::Menu,
        PlayerState::InRoom(_) => ScreenType::InRoom,
        PlayerState::InGame(_) => ScreenType::InGame,
    }
}

/// The screen on which a player in `state` is.
pub fn screen_type(state: PlayerState) -> (screen: ScreenType)
    ensures
        screen == spec_screen_type(state),
{
    match state {
        PlayerState::Logged(_) => ScreenType::Menu,
        PlayerState::InRoom(_) => ScreenType::InRoom,
        PlayerState::InGame(_) => ScreenType::InGame,
    }
}

/// Where the prompt stands on the screen of a player in `state`, as row and column.
pub fn prompt_position(state: PlayerState) -> (position: (Latitude, Longtitude))
    ensures
        position == if state is InGame {
            (35i64, 63i64)
        } else {
            (17i64, 63i64)
        },
{
    match state {
        PlayerState::Logged(_) => (17, 63),
        PlayerState::InRoom(_) => (17, 63),
        PlayerState::InGame(_) => (35, 63),
    }
}

/// `value`, or the nearer end of the range from zero to `limit` if it lies outside.
pub open spec fn clamped(value: int, limit: int) -> int {
    if value < 0 {
        0
    } else if value > limit {
        limit
    } else {
        value
    }
}

/// The visible range along one axis after the cursor moved to `position`:
/// unchanged if the cursor is inside it; else moved so that the cursor is on
/// its edge, `span` tiles long where the limit allows.
pub open spec fn scrolled(range: (usize, usize), position: int, span: int, limit: int) -> (usize, usize) {
    if position < range.0 {
        (
            position as usize,
            (if position + span - 1 < limit {
                position + span - 1
            } else {
                limit
            }) as usize,
        )
    } else if position > range.1 {
        ((position - span + 1) as usize, position as usize)
    } else {
        range
    }
}

/// The moves of `moves` that have no negative coordinate, in order.
pub open spec fn on_board(moves: Seq<Coordinate>) -> Seq<(usize, usize)> {
    moves.filter(|m: Coordinate| m.0 >= 0 && m.1 >= 0).map_values(|m: Coordinate| (m.0 as usize, m.1 as usize))
}

/// The visible part of the board, the cursor, and what is known of the moves.
pub struct BoardManager {
    vertical_range: (usize, usize),
    horizontal_range: (usize, usize),
    cursor: Coordinate,
    last_opp_move: Option<(usize, usize)>,
    player1_moves: Vec<(usize, usize)>,
    player2_moves: Vec<(usize, usize)>,
    player_order: PlayerOrder,
}

/// A `BoardManager` as a mathematical value.
pub struct BoardView {
    pub vertical_range: (usize, usize),
    pub horizontal_range: (usize, usize),
    pub cursor: Coordinate,
    pub last_opp_move: Option<(usize, usize)>,
    pub player1_moves: Seq<(usize, usize)>,
    pub player2_moves: Seq<(usize, usize)>,
    pub player_order: PlayerOrder,
}

impl BoardView {
    /// The ranges are in order, end within the limits and not before the
    /// shortest full range, and the cursor is within the limits.
    pub open spec fn wf(self) -> bool {
        &&& self.vertical_range.0 <= self.vertical_range.1 <= LATITUDE_LIMIT
        &&& self.horizontal_range.0 <= self.horizontal_range.1 <= LONGTITUDE_LIMIT
        &&& self.vertical_range.1 >= BOARD_HEIGHT - 1
        &&& self.horizontal_range.1 >= BOARD_WIDTH - 1
        &&& 0 <= self.cursor.0 <= LATITUDE_LIMIT
        &&& 0 <= self.cursor.1 <= LONGTITUDE_LIMIT
    }

    /// The board after the cursor was sent to (`latitude`, `longtitude`): the
    /// cursor stands on the nearest position within the limits, and each
    /// visible range has followed it.
    pub open spec fn after_cursor(self, latitude: Latitude, longtitude: Longtitude) -> BoardView {
        let row = clamped(latitude as int, LATITUDE_LIMIT as int);
        let column = clamped(longtitude as int, LONGTITUDE_LIMIT as int);
        BoardView {
            vertical_range: scrolled(self.vertical_range, row, BOARD_HEIGHT as int, LATITUDE_LIMIT as int),
            horizontal_range: scrolled(
                self.horizontal_range,
                column,
                BOARD_WIDTH as int,
                LONGTITUDE_LIMIT as int,
            ),
            cursor: (row as i64, column as i64),
            ..self
        }
    }

    /// The board after both players' moves were replaced. The opponent's
    /// latest move is remembered; where the opponent has not moved, the one
    /// remembered before stays.
    pub open spec fn after_moves(self, player1_moves: Seq<(usize, usize)>, player2_moves: Seq<(usize, usize)>) -> BoardView {
        let opponent_moves = if self.player_order == PlayerOrder::Player1 {
            player2_moves
        } else {
            player1_moves
        };
        BoardView {
            last_opp_move: if opponent_moves.len() > 0 {
                Some(opponent_moves.last())
            } else {
                self.last_opp_move
            },
            player1_moves,
            player2_moves,
            ..self
        }
    }
}

impl View for BoardManager {
    type V = BoardView;

    closed spec fn view(&self) -> BoardView {
        BoardView {
            vertical_range: self.vertical_range,
            horizontal_range: self.horizontal_range,
            cursor: self.cursor,
            last_opp_move: self.last_opp_move,
            player1_moves: self.player1_moves@,
            player2_moves: self.player2_moves@,
            player_order: self.player_order,
        }
    }
}

/// The moves of `moves` that have no negative coordinate, in order.
pub fn moves_on_board(moves: &Vec<Coordinate>) -> (kept: Vec<(usize, usize)>)
    ensures
        kept@ == on_board(moves@),
{
    let mut kept: Vec<(usize, usize)> = Vec::new();
    let mut i: usize = 0;
    let ghost inside = |m: Coordinate| m.0 >= 0 && m.1 >= 0;
    let ghost convert = |m: Coordinate| (m.0 as usize, m.1 as usize);
    while i < moves.len()
        invariant
            i <= moves.len(),
            inside == |m: Coordinate| m.0 >= 0 && m.1 >= 0,
            convert == |m: Coordinate| (m.0 as usize, m.1 as usize),
            kept@ == moves@.subrange(0, i as int).filter(inside).map_values(convert),
        decreases moves.len() - i,
    {
        let m = moves[i];
        proof {
            let before = moves@.subrange(0, i as int);
            let longer = moves@.subrange(0, i + 1);
            assert(longer.drop_last() =~= before);
            assert(longer.last() == m);
            reveal(Seq::filter);
            assert(longer.filter(inside) == if inside(m) {
                before.filter(inside).push(m)
            } else {
                before.filter(inside)
            });
        }
        if m.0 >= 0 && m.1 >= 0 {
            kept.push((m.0 as usize, m.1 as usize));
            assert(kept@ =~= moves@.subrange(0, i + 1).filter(inside).map_values(convert));
        }
        i = i + 1;
    }
    assert(moves@.subrange(0, moves.len() as int) =~= moves@);
    kept
}

impl BoardManager {
    /// The board of a client that has seen no game yet: the first rows and
    /// columns are visible, the cursor is in the corner, no move is known, and
    /// the player counts as player one.
    pub fn new() -> (board: Self)
        ensures
            board@.wf(),
            board@ == (BoardView {
                vertical_range: (0, (BOARD_HEIGHT - 1) as usize),
                horizontal_range: (0, (BOARD_WIDTH - 1) as usize),
                cursor: (0, 0),
                last_opp_move: None,
                player1_moves: Seq::empty(),
                player2_moves: Seq::empty(),
                player_order: PlayerOrder::Player1,
            }),
    {
        Self {
            vertical_range: (0, BOARD_HEIGHT - 1),
            horizontal_range: (0, BOARD_WIDTH - 1),
            cursor: (0, 0),
            last_opp_move: None,
            player1_moves: Vec::new(),
            player2_moves: Vec::new(),
            player_order: PlayerOrder::Player1,
        }
    }

    pub fn set_player_order(&mut self, player_order: PlayerOrder)
        ensures
            final(self)@ == (BoardView { player_order, ..old(self)@ }),
    {
        self.player_order = player_order;
    }

    pub fn get_player_order(&self) -> (player_order: PlayerOrder)
        ensures
            player_order == self@.player_order,
    {
        self.player_order
    }

    /// Sends the cursor to (`latitude`, `longtitude`), or to the nearest
    /// position within the limits, and lets the visible ranges follow it.
    pub fn set_cursor_pos(&mut self, latitude: Latitude, longtitude: Longtitude)
        requires
            old(self)@.wf(),
        ensures
            final(self)@ == old(self)@.after_cursor(latitude, longtitude),
            final(self)@.wf(),
    {
        let clamped_latitude: i64 = if latitude < 0 {
            0
        } else if latitude > LATITUDE_LIMIT as i64 {
            LATITUDE_LIMIT as i64
        } else {
            latitude
        };
        let clamped_longtitude: i64 = if longtitude < 0 {
            0
        } else if longtitude > LONGTITUDE_LIMIT as i64 {
            LONGTITUDE_LIMIT as i64
        } else {
            longtitude
        };
        let (mut new_vertical_start, mut new_vertical_end) = self.vertical_range;
        if clamped_latitude < new_vertical_start as i64 {
            new_vertical_start = clamped_latitude as usize;
            let end = clamped_latitude as usize + BOARD_HEIGHT - 1;
            new_vertical_end = if end < LATITUDE_LIMIT {
                end
            } else {
                LATITUDE_LIMIT
            };
        } else if clamped_latitude > new_vertical_end as i64 {
            new_vertical_end = clamped_latitude as usize;
            new_vertical_start = clamped_latitude as usize - BOARD_HEIGHT + 1;
        }
        self.vertical_range = (new_vertical_start, new_vertical_end);
        let (mut new_horizontal_start, mut new_horizontal_end) = self.horizontal_range;
        if clamped_longtitude < new_horizontal_start as i64 {
            new_horizontal_start = clamped_longtitude as usize;
            let end = clamped_longtitude as usize + BOARD_WIDTH - 1;
            new_horizontal_end = if end < LONGTITUDE_LIMIT {
                end
            } else {
                LONGTITUDE_LIMIT
            };
        } else if clamped_longtitude > new_horizontal_end as i64 {
            new_horizontal_end = clamped_longtitude as usize;
            new_horizontal_start = clamped_longtitude as usize - BOARD_WIDTH + 1;
        }
        self.horizontal_range = (new_horizontal_start, new_horizontal_end);
        self.cursor = (clamped_latitude, clamped_longtitude);
    }

    pub fn get_cursor_pos(&self) -> (position: Coordinate)
        ensures
            position == self@.cursor,
    {
        self.cursor
    }

    /// The first and the last visible row.
    pub fn get_vertical_range(&self) -> (range: (usize, usize))
        ensures
            range == self@.vertical_range,
    {
        self.vertical_range
    }

    /// The first and the last visible column.
    pub fn get_horizontal_range(&self) -> (range: (usize, usize))
        ensures
            range == self@.horizontal_range,
    {
        self.horizontal_range
    }

    /// The opponent's latest move, as far as it is known.
    pub fn get_last_opp_move(&self) -> (last: Option<(usize, usize)>)
        ensures
            last == self@.last_opp_move,
    {
        self.last_opp_move
    }

    /// Replaces both players' moves and remembers the opponent's latest one.
    pub fn update_move_set(&mut self, player1_moves: Vec<(usize, usize)>, player2_moves: Vec<(usize, usize)>)
        ensures
            final(self)@ == old(self)@.after_moves(player1_moves@, player2_moves@),
            old(self)@.wf() ==> final(self)@.wf(),
    {
        let is_player1 = match self.player_order {
            PlayerOrder::Player1 => true,
            PlayerOrder::Player2 => false,
        };
        let opponent_moves = if is_player1 {
            &player2_moves
        } else {
            &player1_moves
        };
        if opponent_moves.len() > 0 {
            self.last_opp_move = Some(opponent_moves[opponent_moves.len() - 1]);
        }
        self.player1_moves = player1_moves;
        self.player2_moves = player2_moves;
    }

    /// Takes both players' histories from a snapshot of the game. Moves with a
    /// negative coordinate lie on no board and are left out.
    pub fn update_game_context(&mut self, game_context: &GameContext)
        ensures
            final(self)@ == old(self)@.after_moves(
                on_board(game_context@.player1_move_history),
                on_board(game_context@.player2_move_history),
            ),
            old(self)@.wf() ==> final(self)@.wf(),
    {
        let player1_moves = moves_on_board(&game_context.player1_move_history);
        let player2_moves = moves_on_board(&game_context.player2_move_history);
        self.update_move_set(player1_moves, player2_moves);
    }
}


/// Whether `moves` holds the tile (`latitude`, `longtitude`).
pub open spec fn names_tile(moves: Seq<Coordinate>, latitude: int, longtitude: int) -> bool {
    exists|i: int| 0 <= i < moves.len() && #[trigger] moves[i].0 == latitude && moves[i].1 == longtitude
}

/// The mark that a snapshot shows on a tile: of player one if that player's
/// history names the tile, else of player two if that one's does, else none.
pub open spec fn shown_tile(context: GameContextView, latitude: int, longtitude: int) -> TileState {
    if names_tile(context.player1_move_history, latitude, longtitude) {
        TileState::Player1
    } else if names_tile(context.player2_move_history, latitude, longtitude) {
        TileState::Player2
    } else {
        TileState::Empty
    }
}

/// The smaller of two numbers.
pub open spec fn at_most(value: usize, limit: usize) -> usize {
    if value < limit {
        value
    } else {
        limit
    }
}

fn list_names_tile(moves: &Vec<Coordinate>, latitude: usize, longtitude: usize) -> (found: bool)
    ensures
        found == names_tile(moves@, latitude as int, longtitude as int),
{
    let mut i: usize = 0;
    while i < moves.len()
        invariant
            i <= moves.len(),
            forall|k: int| 0 <= k < i ==> !(#[trigger] moves@[k].0 == latitude && moves@[k].1 == longtitude),
        decreases moves.len() - i,
    {
        let m = moves[i];
        if m.0 >= 0 && m.1 >= 0 && m.0 as u64 == latitude as u64 && m.1 as u64 == longtitude as u64 {
            return true;
        }
        i = i + 1;
    }
    false
}

/// The part of the board of a snapshot that a plain listing shows: the first
/// `SCREEN_HEIGHT` rows and the first `SCREEN_WIDTH` columns, as far as the
/// board has them, each tile with the mark that the histories give it.
pub fn context_rows(context: &GameContext) -> (rows: Vec<Row>)
    ensures
        rows@.len() == at_most(context@.board_height, SCREEN_HEIGHT),
        forall|i: int| 0 <= i < rows@.len() ==> (#[trigger] rows@[i])@.len() == at_most(
            context@.board_width,
            SCREEN_WIDTH,
        ),
        forall|i: int, j: int| 0 <= i < rows@.len() && 0 <= j < at_most(context@.board_width, SCREEN_WIDTH)
            ==> (#[trigger] rows@[i]@[j]) == shown_tile(context@, i, j),
{
    let max_height = if context.board_height < SCREEN_HEIGHT {
        context.board_height
    } else {
        SCREEN_HEIGHT
    };
    let max_width = if context.board_width < SCREEN_WIDTH {
        context.board_width
    } else {
        SCREEN_WIDTH
    };
    let mut rows: Vec<Row> = Vec::new();
    let mut latitude: usize = 0;
    while latitude < max_height
        invariant
            latitude <= max_height,
            max_width == at_most(context@.board_width, SCREEN_WIDTH),
            rows@.len() == latitude,
            forall|i: int| 0 <= i < rows@.len() ==> (#[trigger] rows@[i])@.len() == max_width,
            forall|i: int, j: int| 0 <= i < rows@.len() && 0 <= j < max_width ==> (#[trigger] rows@[i]@[j])
                == shown_tile(context@, i, j),
        decreases max_height - latitude,
    {
        let mut row: Row = Vec::new();
        let mut longtitude: usize = 0;
        while longtitude < max_width
            invariant
                longtitude <= max_width,
                row@.len() == longtitude,
                forall|j: int| 0 <= j < longtitude ==> row@[j] == shown_tile(context@, latitude as int, j),
            decreases max_width - longtitude,
        {
            let tile = if list_names_tile(&context.player1_move_history, latitude, longtitude) {
                TileState::Player1
            } else if list_names_tile(&context.player2_move_history, latitude, longtitude) {
                TileState::Player2
            } else {
                TileState::Empty
            };
            row.push(tile);
            longtitude = longtitude + 1;
        }
        rows.push(row);
        latitude = latitude + 1;
    }
    rows
}

} // verus!
