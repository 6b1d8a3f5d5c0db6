//! One rule engine per game, each bound to a room, kept under reusable ids.

use std::collections::BTreeMap;
use vstd::prelude::*;
use vstd::std_specs::btree::*;
use vstd::std_specs::iter::IteratorSpec;
use crate::caro_protocol;
use crate::caro_protocol::{GameId, GameRule, InGameRequest, PlayerCode, RoomId};
use crate::id_pool::{IdPool, NO_ID, is_smallest_free, all_held_up_to};
use crate::simple_caro;
use crate::simple_caro::{CaroModel, MoveResult, Participant, RuleType, SimpleCaro};

verus! {

broadcast use group_btree_axioms;

/// How a command ended, with the state of the game after it.
#[derive(Debug, Clone, Copy, PartialEq, Eq, Structural)]
pub enum OperationResult {
    Successfully(simple_caro::GameState),
    Unsuccessfully(simple_caro::GameState),
}

/// Whether a game takes moves: `Started` while a turn is active, `Pending`
/// before the start and after a result.
#[derive(Debug, Clone, Copy, PartialEq, Eq, Structural)]
pub enum GameAvailability {
    Pending,
    Started,
}

/// One of the two players of a game.
#[derive(Debug, Clone, Copy, PartialEq, Eq, Structural)]
pub enum PlayerOrder {
    Player1,
    Player2,
}

/// The part of a game's snapshot that does not depend on who receives it.
#[derive(Debug, PartialEq, Eq)]
pub struct InternalGameContext {
    pub board_height: usize,
    pub board_width: usize,
    pub player1_move_history: Vec<caro_protocol::Coordinate>,
    pub player2_move_history: Vec<caro_protocol::Coordinate>,
    pub player1_undone_moves: Vec<caro_protocol::Coordinate>,
    pub player2_undone_moves: Vec<caro_protocol::Coordinate>,
    pub game_state: caro_protocol::GameState,
}

/// What an `InternalGameContext` holds, with sequences in place of vectors.
pub struct InternalGameContextView {
    pub board_height: usize,
    pub board_width: usize,
    pub player1_move_history: Seq<caro_protocol::Coordinate>,
    pub player2_move_history: Seq<caro_protocol::Coordinate>,
    pub player1_undone_moves: Seq<caro_protocol::Coordinate>,
    pub player2_undone_moves: Seq<caro_protocol::Coordinate>,
    pub game_state: caro_protocol::GameState,
}

impl View for InternalGameContext {
    type V = InternalGameContextView;

    open spec fn view(&self) -> InternalGameContextView {
        InternalGameContextView {
            board_height: self.board_height,
            board_width: self.board_width,
            player1_move_history: self.player1_move_history@,
            player2_move_history: self.player2_move_history@,
            player1_undone_moves: self.player1_undone_moves@,
            player2_undone_moves: self.player2_undone_moves@,
            game_state: self.game_state,
        }
    }
}

/// The engine's name for the player in seat `order`.
pub open spec fn participant_of(order: PlayerOrder) -> Participant {
    match order {
        PlayerOrder::Player1 => Participant::Player1,
        PlayerOrder::Player2 => Participant::Player2,
    }
}

/// The engine's name for `rule`.
pub open spec fn rule_type_of(rule: GameRule) -> RuleType {
    match rule {
        GameRule::TicTacToe => RuleType::TicTacToe,
        GameRule::FourBlockOne => RuleType::FourBlockOne,
        GameRule::FiveBlockTwo => RuleType::FiveBlockTwo,
    }
}

/// The board's side under `rule`: three tiles for tic-tac-toe, 1024 otherwise.
pub open spec fn board_side_of(rule: GameRule) -> usize {
    match rule {
        GameRule::TicTacToe => 3,
        GameRule::FourBlockOne => 1024,
        GameRule::FiveBlockTwo => 1024,
    }
}

/// The protocol's name for the engine's `state`.
pub open spec fn protocol_state(state: simple_caro::GameState) -> caro_protocol::GameState {
    match state {
        simple_caro::GameState::Player1Turn => caro_protocol::GameState::Player1Turn,
        simple_caro::GameState::Player2Turn => caro_protocol::GameState::Player2Turn,
        simple_caro::GameState::Player1Won => caro_protocol::GameState::Player1Won,
        simple_caro::GameState::Player2Won => caro_protocol::GameState::Player2Won,
        simple_caro::GameState::Drew => caro_protocol::GameState::Drew,
        simple_caro::GameState::NotInprogress => caro_protocol::GameState::NotInprogress,
    }
}

/// The protocol's name for the engine's `tile`.
pub open spec fn protocol_tile(tile: simple_caro::TileState) -> caro_protocol::TileState {
    match tile {
        simple_caro::TileState::Empty => caro_protocol::TileState::Empty,
        simple_caro::TileState::Player1 => caro_protocol::TileState::Player1,
        simple_caro::TileState::Player2 => caro_protocol::TileState::Player2,
    }
}

/// The coordinates of `moves` as pairs of latitude and longitude.
pub open spec fn protocol_moves(moves: Seq<simple_caro::Coordinate>) -> Seq<caro_protocol::Coordinate> {
    Seq::new(moves.len(), |i: int| (moves[i].latitude, moves[i].longtitude))
}

/// A game as a mathematical value: its engine and the room it belongs to.
pub struct GameModel {
    pub engine: CaroModel,
    pub room_id: RoomId,
}

impl GameModel {
    /// The game as it is right after creation: the rule set, the board sized for
    /// it and empty, nothing running.
    pub open spec fn created(room_id: RoomId, rule: GameRule) -> GameModel {
        GameModel {
            engine: CaroModel {
                rule: Some(rule_type_of(rule)),
                width: board_side_of(rule),
                height: board_side_of(rule),
                state: simple_caro::GameState::NotInprogress,
                moves1: Seq::empty(),
                moves2: Seq::empty(),
                undone1: Seq::empty(),
                undone2: Seq::empty(),
            },
            room_id,
        }
    }

    /// The board is well formed.
    pub open spec fn wf(self) -> bool {
        self.engine.wf()
    }

    /// The state of the game in the protocol's terms.
    pub open spec fn state(self) -> caro_protocol::GameState {
        protocol_state(self.engine.state)
    }

    /// `Started` while a turn is active, `Pending` otherwise.
    pub open spec fn availability(self) -> GameAvailability {
        match self.engine.state {
            simple_caro::GameState::Player1Turn => GameAvailability::Started,
            simple_caro::GameState::Player2Turn => GameAvailability::Started,
            _ => GameAvailability::Pending,
        }
    }

    /// The game after `try_start`: a pending game starts on an empty board with
    /// player one to move; a started game stays as it is.
    pub open spec fn after_try_start(self) -> GameModel {
        if self.availability() == GameAvailability::Pending {
            GameModel { engine: self.engine.after_start(simple_caro::GameState::Player1Turn), ..self }
        } else {
            self
        }
    }

    /// The game after `try_stop`: a pending game is marked as not in progress;
    /// a started game stays as it is.
    pub open spec fn after_try_stop(self) -> GameModel {
        if self.availability() == GameAvailability::Pending {
            GameModel {
                engine: CaroModel { state: simple_caro::GameState::NotInprogress, ..self.engine },
                ..self
            }
        } else {
            self
        }
    }

    /// Whether the engine accepts `code` from `order`. Only moves, undos and
    /// redos can succeed.
    pub open spec fn accepts(self, order: PlayerOrder, code: PlayerCode) -> bool {
        let who = participant_of(order);
        match code {
            PlayerCode::InGame(InGameRequest::PlayerMove(pos)) => self.engine.check_move(
                who,
                simple_caro::Coordinate { latitude: pos.0, longtitude: pos.1 },
            ) == MoveResult::Success,
            PlayerCode::InGame(InGameRequest::PlayerUndo) => self.engine.check_undo(who) == MoveResult::Success,
            PlayerCode::InGame(InGameRequest::PlayerRedo) => self.engine.check_redo(who) == MoveResult::Success,
            _ => false,
        }
    }

    /// The game after `execute_command`. A move that the engine accepts also
    /// passes the turn on; an undo or a redo is the engine's own; every other
    /// code, and every refused command, leaves the game as it is.
    pub open spec fn after_command(self, order: PlayerOrder, code: PlayerCode) -> GameModel {
        let who = participant_of(order);
        match code {
            PlayerCode::InGame(InGameRequest::PlayerMove(pos)) => {
                let at = simple_caro::Coordinate { latitude: pos.0, longtitude: pos.1 };
                if self.engine.check_move(who, at) == MoveResult::Success {
                    GameModel { engine: self.engine.after_move(who, at).after_switch_turn(), ..self }
                } else {
                    self
                }
            },
            PlayerCode::InGame(InGameRequest::PlayerUndo) => GameModel {
                engine: self.engine.after_undo(who),
                ..self
            },
            PlayerCode::InGame(InGameRequest::PlayerRedo) => GameModel {
                engine: self.engine.after_redo(who),
                ..self
            },
            _ => self,
        }
    }

    /// What `execute_command` reports for `code` from `order`.
    pub open spec fn result_of(self, order: PlayerOrder, code: PlayerCode) -> OperationResult {
        let state = self.after_command(order, code).engine.state;
        if self.accepts(order, code) {
            OperationResult::Successfully(state)
        } else {
            OperationResult::Unsuccessfully(state)
        }
    }

    /// The snapshot of the game.
    pub open spec fn context(self) -> InternalGameContextView {
        InternalGameContextView {
            board_height: self.engine.height,
            board_width: self.engine.width,
            player1_move_history: protocol_moves(self.engine.moves1),
            player2_move_history: protocol_moves(self.engine.moves2),
            player1_undone_moves: protocol_moves(self.engine.undone1),
            player2_undone_moves: protocol_moves(self.engine.undone2),
            game_state: self.state(),
        }
    }
}

/// Every step of a game keeps a well-formed game well formed.
pub proof fn lemma_game_steps_keep_wf(game: GameModel, order: PlayerOrder, code: PlayerCode)
    requires
        game.wf(),
    ensures
        game.after_command(order, code).wf(),
        game.after_try_start().wf(),
        game.after_try_stop().wf(),
{
    let who = participant_of(order);
    let origin = simple_caro::Coordinate { latitude: 0, longtitude: 0 };
    simple_caro::lemma_steps_keep_wf(game.engine, who, origin, simple_caro::GameState::Player1Turn);
    match code {
        PlayerCode::InGame(InGameRequest::PlayerMove(pos)) => {
            let at = simple_caro::Coordinate { latitude: pos.0, longtitude: pos.1 };
            simple_caro::lemma_steps_keep_wf(game.engine, who, at, simple_caro::GameState::Player1Turn);
            simple_caro::lemma_steps_keep_wf(
                game.engine.after_move(who, at),
                who,
                at,
                simple_caro::GameState::Player1Turn,
            );
        },
        _ => {},
    }
}

/// The coordinates of `moves` as pairs.
fn to_protocol_moves(moves: Vec<simple_caro::Coordinate>) -> (pairs: Vec<caro_protocol::Coordinate>)
    ensures
        pairs@ == protocol_moves(moves@),
{
    let mut pairs: Vec<caro_protocol::Coordinate> = Vec::new();
    let mut i: usize = 0;
    while i < moves.len()
        invariant
            i <= moves.len(),
            pairs@.len() == i,
            forall|k: int| 0 <= k < i ==> pairs@[k] == (moves@[k].latitude, moves@[k].longtitude),
        decreases moves.len() - i,
    {
        pairs.push((moves[i].latitude, moves[i].longtitude));
        i = i + 1;
    }
    assert(pairs@ =~= protocol_moves(moves@));
    pairs
}

/// A game: the engine that plays it and the room it belongs to.
pub struct GameOperator {
    game: SimpleCaro,
    room_id: RoomId,
}

impl View for GameOperator {
    type V = GameModel;

    closed spec fn view(&self) -> GameModel {
        GameModel { engine: self.game@, room_id: self.room_id }
    }
}

impl GameOperator {
    pub fn new(room_id: RoomId, game_rule: GameRule) -> (operator: Self)
        ensures
            operator@ == GameModel::created(room_id, game_rule),
            operator@.wf(),
    {
        let mut game = SimpleCaro::new();
        match game_rule {
            GameRule::TicTacToe => {
                game.set_rule(RuleType::TicTacToe);
                game.set_board_size(3, 3);
            },
            GameRule::FourBlockOne => {
                game.set_rule(RuleType::FourBlockOne);
                game.set_board_size(1024, 1024);
            },
            GameRule::FiveBlockTwo => {
                game.set_rule(RuleType::FiveBlockTwo);
                game.set_board_size(1024, 1024);
            },
        }
        Self { game, room_id }
    }

    /// Starts the game if it is pending. Returns whether it did.
    pub fn try_start(&mut self) -> (started: bool)
        ensures
            started == (old(self)@.availability() == GameAvailability::Pending),
            final(self)@ == old(self)@.after_try_start(),
            old(self)@.wf() ==> final(self)@.wf(),
    {
        match self.get_availability() {
            GameAvailability::Pending => {
                self.game.start(simple_caro::GameState::Player1Turn);
                true
            },
            GameAvailability::Started => false,
        }
    }

    /// Marks the game as not in progress if it is pending. Returns whether it
    /// did; a started game is not stopped.
    pub fn try_stop(&mut self) -> (stopped: bool)
        ensures
            stopped == (old(self)@.availability() == GameAvailability::Pending),
            final(self)@ == old(self)@.after_try_stop(),
            old(self)@.wf() ==> final(self)@.wf(),
    {
        match self.get_availability() {
            GameAvailability::Pending => {
                self.game.stop();
                true
            },
            GameAvailability::Started => false,
        }
    }

    pub fn get_availability(&self) -> (availability: GameAvailability)
        ensures
            availability == self@.availability(),
    {
        match self.get_state() {
            caro_protocol::GameState::Player1Turn => GameAvailability::Started,
            caro_protocol::GameState::Player2Turn => GameAvailability::Started,
            caro_protocol::GameState::Player1Won => GameAvailability::Pending,
            caro_protocol::GameState::Player2Won => GameAvailability::Pending,
            caro_protocol::GameState::Drew => GameAvailability::Pending,
            caro_protocol::GameState::NotInprogress => GameAvailability::Pending,
        }
    }

    pub fn get_board_height(&self) -> (height: usize)
        ensures
            height == self@.engine.height,
    {
        self.game.get_board_height()
    }

    pub fn get_board_width(&self) -> (width: usize)
        ensures
            width == self@.engine.width,
    {
        self.game.get_board_width()
    }

    /// The marks on the board, row by row.
    pub fn get_board(&self) -> (board: Vec<caro_protocol::Row>)
        ensures
            board@.len() == self@.engine.height,
            forall|i: int| 0 <= i < board@.len() ==> (#[trigger] board@[i])@.len() == self@.engine.width,
            forall|i: int, j: int| 0 <= i < board@.len() && 0 <= j < self@.engine.width
                ==> (#[trigger] board@[i]@[j]) == protocol_tile(self@.engine.tile(i, j)),
    {
        let mut board: Vec<caro_protocol::Row> = Vec::new();
        let height = self.game.get_board_height();
        let width = self.game.get_board_width();
        let mut latitude: usize = 0;
        while latitude < height
            invariant
                height == self@.engine.height,
                width == self@.engine.width,
                latitude <= height,
                board@.len() == latitude,
                forall|i: int| 0 <= i < board@.len() ==> (#[trigger] board@[i])@.len() == width,
                forall|i: int, j: int| 0 <= i < board@.len() && 0 <= j < width
                    ==> (#[trigger] board@[i]@[j]) == protocol_tile(self@.engine.tile(i, j)),
            decreases height - latitude,
        {
            let mut row: caro_protocol::Row = Vec::new();
            let mut longtitude: usize = 0;
            while longtitude < width
                invariant
                    width == self@.engine.width,
                    longtitude <= width,
                    latitude < height,
                    row@.len() == longtitude,
                    forall|j: int| 0 <= j < longtitude ==> row@[j] == protocol_tile(
                        self@.engine.tile(latitude as int, j),
                    ),
                decreases width - longtitude,
            {
                match self.game.get_board_tile(latitude, longtitude) {
                    simple_caro::TileState::Player1 => row.push(caro_protocol::TileState::Player1),
                    simple_caro::TileState::Player2 => row.push(caro_protocol::TileState::Player2),
                    simple_caro::TileState::Empty => row.push(caro_protocol::TileState::Empty),
                }
                longtitude = longtitude + 1;
            }
            board.push(row);
            latitude = latitude + 1;
        }
        board
    }

    pub fn get_player_move_history(&self, order: PlayerOrder) -> (history: Vec<caro_protocol::Coordinate>)
        ensures
            history@ == protocol_moves(self@.engine.moves(participant_of(order))),
    {
        match order {
            PlayerOrder::Player1 => to_protocol_moves(self.game.get_moves_history(Participant::Player1)),
            PlayerOrder::Player2 => to_protocol_moves(self.game.get_moves_history(Participant::Player2)),
        }
    }

    pub fn get_player_undone_moves(&self, order: PlayerOrder) -> (undone: Vec<caro_protocol::Coordinate>)
        ensures
            undone@ == protocol_moves(self@.engine.undone(participant_of(order))),
    {
        match order {
            PlayerOrder::Player1 => to_protocol_moves(self.game.get_undone_moves(Participant::Player1)),
            PlayerOrder::Player2 => to_protocol_moves(self.game.get_undone_moves(Participant::Player2)),
        }
    }

    pub fn get_state(&self) -> (state: caro_protocol::GameState)
        ensures
            state == self@.state(),
    {
        match self.game.get_state() {
            simple_caro::GameState::Player1Turn => caro_protocol::GameState::Player1Turn,
            simple_caro::GameState::Player2Turn => caro_protocol::GameState::Player2Turn,
            simple_caro::GameState::Player1Won => caro_protocol::GameState::Player1Won,
            simple_caro::GameState::Player2Won => caro_protocol::GameState::Player2Won,
            simple_caro::GameState::Drew => caro_protocol::GameState::Drew,
            simple_caro::GameState::NotInprogress => caro_protocol::GameState::NotInprogress,
        }
    }

    /// Hands a move, an undo or a redo of `player_order` to the engine; a move
    /// that succeeds also passes the turn on. Every other code does nothing and
    /// counts as not successful.
    pub fn execute_command(&mut self, player_order: PlayerOrder, cmd_code: PlayerCode) -> (result: OperationResult)
        ensures
            result == old(self)@.result_of(player_order, cmd_code),
            final(self)@ == old(self)@.after_command(player_order, cmd_code),
            old(self)@.wf() ==> final(self)@.wf(),
    {
        let mut is_success = false;
        let who = match player_order {
            PlayerOrder::Player1 => Participant::Player1,
            PlayerOrder::Player2 => Participant::Player2,
        };
        match cmd_code {
            PlayerCode::InGame(InGameRequest::PlayerMove((latitude, longtitude))) => {
                let pos = simple_caro::Coordinate { latitude, longtitude };
                let result = self.game.player_move(who, pos);
                match result {
                    MoveResult::Success => {
                        self.game.switch_turn();
                        is_success = true;
                    },
                    _ => {
                        is_success = false;
                    },
                }
            },
            PlayerCode::InGame(InGameRequest::PlayerUndo) => {
                let result = self.game.player_undo(who);
                match result {
                    MoveResult::Success => {
                        is_success = true;
                    },
                    _ => {
                        is_success = false;
                    },
                }
            },
            PlayerCode::InGame(InGameRequest::PlayerRedo) => {
                let result = self.game.player_redo(who);
                match result {
                    MoveResult::Success => {
                        is_success = true;
                    },
                    _ => {
                        is_success = false;
                    },
                }
            },
            _ => {},
        }
        if is_success {
            OperationResult::Successfully(self.game.get_state())
        } else {
            OperationResult::Unsuccessfully(self.game.get_state())
        }
    }

    pub fn get_rid(&self) -> (rid: RoomId)
        ensures
            rid == self@.room_id,
    {
        self.room_id
    }

    /// The snapshot of the game.
    pub fn get_context(&self) -> (context: InternalGameContext)
        ensures
            context@ == self@.context(),
    {
        InternalGameContext {
            board_height: self.get_board_height(),
            board_width: self.get_board_width(),
            player1_move_history: self.get_player_move_history(PlayerOrder::Player1),
            player2_move_history: self.get_player_move_history(PlayerOrder::Player2),
            player1_undone_moves: self.get_player_undone_moves(PlayerOrder::Player1),
            player2_undone_moves: self.get_player_undone_moves(PlayerOrder::Player2),
            game_state: self.get_state(),
        }
    }
}


/// `gid` is the least id of a game in `games` that belongs to the room `rid`.
pub open spec fn is_first_game_of(games: Map<GameId, GameModel>, rid: RoomId, gid: GameId) -> bool {
    &&& games.contains_key(gid)
    &&& games[gid].room_id == rid
    &&& forall|g: GameId| g < gid && games.contains_key(g) ==> games[g].room_id != rid
}

/// No game in `games` belongs to the room `rid`.
pub open spec fn no_game_of(games: Map<GameId, GameModel>, rid: RoomId) -> bool {
    forall|g: GameId| games.contains_key(g) ==> games[g].room_id != rid
}

/// The least id of a game that belongs to the room `rid`, if there is one.
pub open spec fn first_game_of(games: Map<GameId, GameModel>, rid: RoomId) -> Option<GameId> {
    if exists|gid: GameId| is_first_game_of(games, rid, gid) {
        Some(choose|gid: GameId| is_first_game_of(games, rid, gid))
    } else {
        None
    }
}

/// At most one id is the least one, so `first_game_of` is the id that
/// `is_first_game_of` describes, and it is `None` exactly when the room has no game.
pub proof fn lemma_first_game_of(games: Map<GameId, GameModel>, rid: RoomId, found: Option<GameId>)
    requires
        match found {
            Some(gid) => is_first_game_of(games, rid, gid),
            None => no_game_of(games, rid),
        },
    ensures
        first_game_of(games, rid) == found,
{
    match found {
        Some(gid) => {
            let other = choose|g: GameId| is_first_game_of(games, rid, g);
            assert(is_first_game_of(games, rid, other));
            assert(other == gid);
        },
        None => {
            assert forall|g: GameId| !is_first_game_of(games, rid, g) by {}
        },
    }
}

/// Where a game belongs to the room `rid`, some game is the least one that does.
pub proof fn lemma_first_game_exists(games: Map<GameId, GameModel>, rid: RoomId, gid: GameId)
    requires
        games.contains_key(gid),
        games[gid].room_id == rid,
    ensures
        first_game_of(games, rid) is Some,
    decreases gid - i32::MIN,
{
    if !is_first_game_of(games, rid, gid) {
        let lower = choose|g: GameId| g < gid && games.contains_key(g) && games[g].room_id == rid;
        lemma_first_game_exists(games, rid, lower);
    }
}

/// The games of a server: at most `max_games` of them, each under an id from the pool.
pub struct GameContainer {
    games_set: BTreeMap<GameId, GameOperator>,
    max_games: usize,
    gid_pool: IdPool<i32>,
}

impl GameContainer {
    /// Every game's id is positive and held by the pool, and every game's board
    /// is well formed.
    pub closed spec fn wf(self) -> bool {
        &&& forall|gid: GameId| self.games_set@.contains_key(gid) ==> self.gid_pool.held().contains(gid as int)
        &&& forall|gid: GameId| self.games_set@.contains_key(gid) ==> gid >= 1
        &&& forall|gid: GameId| self.games_set@.contains_key(gid) ==> (#[trigger] self.games_set@[gid])@.wf()
    }

    /// The games by id.
    pub closed spec fn games(self) -> Map<GameId, GameModel> {
        self.games_set@.map_values(|game: GameOperator| game@)
    }

    /// The ids that the pool holds.
    pub closed spec fn held_ids(self) -> Set<int> {
        self.gid_pool.held()
    }

    /// The number of games beyond which `add_game` fails.
    pub closed spec fn capacity(self) -> usize {
        self.max_games
    }

    /// A well-formed container keeps every game under a positive id that its pool
    /// holds, and every game in it is well formed.
    pub proof fn lemma_wf(self)
        requires
            self.wf(),
        ensures
            self.games().dom().finite(),
            forall|gid: GameId| self.games().contains_key(gid) ==> self.held_ids().contains(gid as int),
            forall|gid: GameId| self.games().contains_key(gid) ==> gid >= 1,
            forall|gid: GameId| self.games().contains_key(gid) ==> (#[trigger] self.games()[gid]).wf(),
    {
        assert(self.games().dom() =~= self.games_set@.dom());
    }

    /// An empty container over `gid_pool`, whatever that pool already holds.
    pub fn new(max_games: usize, gid_pool: IdPool<i32>) -> (container: Self)
        ensures
            container.wf(),
            container.games() == Map::<GameId, GameModel>::empty(),
            container.held_ids() == gid_pool.held(),
            container.capacity() == max_games,
    {
        let container = Self { games_set: BTreeMap::new(), max_games, gid_pool };
        assert(container.games() =~= Map::<GameId, GameModel>::empty());
        container
    }

    /// Creates a game for the room `rid` under the least free id: the rule set,
    /// the board sized, nothing started. Fails with `NO_ID`, changing nothing,
    /// when the container is at capacity or the pool has no id left.
    pub fn add_game(&mut self, rid: RoomId, game_rule: GameRule) -> (gid: GameId)
        requires
            old(self).wf(),
        ensures
            final(self).wf(),
            final(self).capacity() == old(self).capacity(),
            gid == NO_ID <==> (old(self).games().len() >= old(self).capacity()
                || all_held_up_to(old(self).held_ids(), i32::MAX as int)),
            gid == NO_ID ==> final(self).games() == old(self).games()
                && final(self).held_ids() == old(self).held_ids(),
            gid != NO_ID ==> {
                &&& is_smallest_free(old(self).held_ids(), gid as int)
                &&& !old(self).games().contains_key(gid)
                &&& final(self).games() == old(self).games().insert(gid, GameModel::created(rid, game_rule))
                &&& final(self).held_ids() == old(self).held_ids().insert(gid as int)
            },
    {
        assert(self.games().dom() =~= self.games_set@.dom());
        if self.games_set.len() >= self.max_games {
            return NO_ID;
        }
        let new_gid = self.gid_pool.alloc_id();
        if new_gid == NO_ID {
            return NO_ID;
        }
        let new_game = GameOperator::new(rid, game_rule);
        self.games_set.insert(new_gid, new_game);
        assert(self.games() =~= old(self).games().insert(new_gid, GameModel::created(rid, game_rule)));
        new_gid
    }

    /// Removes the game `gid`, if there is one, and releases the id in any case.
    pub fn remove_game(&mut self, gid: GameId)
        requires
            old(self).wf(),
        ensures
            final(self).wf(),
            final(self).capacity() == old(self).capacity(),
            final(self).games() == old(self).games().remove(gid),
            final(self).held_ids() == old(self).held_ids().remove(gid as int),
    {
        self.games_set.remove(&gid);
        self.gid_pool.dealloc_id(gid);
        assert(self.games() =~= old(self).games().remove(gid));
    }

    /// Starts the game `gid` if it exists and is pending. Returns whether it did.
    pub fn try_start_game(&mut self, gid: GameId) -> (started: bool)
        requires
            old(self).wf(),
        ensures
            final(self).wf(),
            final(self).capacity() == old(self).capacity(),
            final(self).held_ids() == old(self).held_ids(),
            started == (old(self).games().contains_key(gid) && old(self).games()[gid].availability()
                == GameAvailability::Pending),
            final(self).games() == if old(self).games().contains_key(gid) {
                old(self).games().insert(gid, old(self).games()[gid].after_try_start())
            } else {
                old(self).games()
            },
    {
        match self.games_set.remove(&gid) {
            Some(game) => {
                let mut game = game;
                let started = game.try_start();
                self.games_set.insert(gid, game);
                assert(self.games() =~= old(self).games().insert(gid, old(self).games()[gid].after_try_start()));
                started
            },
            None => {
                assert(self.games() =~= old(self).games());
                false
            },
        }
    }

    /// Marks the game `gid` as not in progress if it exists and is pending.
    /// Returns whether it did.
    pub fn try_stop_game(&mut self, gid: GameId) -> (stopped: bool)
        requires
            old(self).wf(),
        ensures
            final(self).wf(),
            final(self).capacity() == old(self).capacity(),
            final(self).held_ids() == old(self).held_ids(),
            stopped == (old(self).games().contains_key(gid) && old(self).games()[gid].availability()
                == GameAvailability::Pending),
            final(self).games() == if old(self).games().contains_key(gid) {
                old(self).games().insert(gid, old(self).games()[gid].after_try_stop())
            } else {
                old(self).games()
            },
    {
        match self.games_set.remove(&gid) {
            Some(game) => {
                let mut game = game;
                let stopped = game.try_stop();
                self.games_set.insert(gid, game);
                assert(self.games() =~= old(self).games().insert(gid, old(self).games()[gid].after_try_stop()));
                stopped
            },
            None => {
                assert(self.games() =~= old(self).games());
                false
            },
        }
    }

    /// The snapshot of the game `gid`, if it exists.
    pub fn get_context_in_game(&self, gid: GameId) -> (context: Option<InternalGameContext>)
        ensures
            context is Some == self.games().contains_key(gid),
            context matches Some(c) ==> c@ == self.games()[gid].context(),
    {
        match self.games_set.get(&gid) {
            Some(game) => Some(game.get_context()),
            None => None,
        }
    }

    /// Hands `cmd_code` of `player_order` to the game `gid`, if it exists.
    pub fn execute_command_in_game(&mut self, gid: GameId, player_order: PlayerOrder, cmd_code: PlayerCode) -> (result: Option<OperationResult>)
        requires
            old(self).wf(),
        ensures
            final(self).wf(),
            final(self).capacity() == old(self).capacity(),
            final(self).held_ids() == old(self).held_ids(),
            result == if old(self).games().contains_key(gid) {
                Some(old(self).games()[gid].result_of(player_order, cmd_code))
            } else {
                None
            },
            final(self).games() == if old(self).games().contains_key(gid) {
                old(self).games().insert(gid, old(self).games()[gid].after_command(player_order, cmd_code))
            } else {
                old(self).games()
            },
    {
        match self.games_set.remove(&gid) {
            Some(game) => {
                let mut game = game;
                let result = game.execute_command(player_order, cmd_code);
                self.games_set.insert(gid, game);
                assert(self.games() =~= old(self).games().insert(
                    gid,
                    old(self).games()[gid].after_command(player_order, cmd_code),
                ));
                Some(result)
            },
            None => {
                assert(self.games() =~= old(self).games());
                None
            },
        }
    }

    /// The least id of a game that belongs to the room `rid`.
    pub fn find_game_contain_room(&self, rid: RoomId) -> (found: Option<GameId>)
        ensures
            found == first_game_of(self.games(), rid),
            match found {
                Some(gid) => is_first_game_of(self.games(), rid, gid),
                None => no_game_of(self.games(), rid),
            },
    {
        let mut best: Option<GameId> = None;
        let ghost keys: Seq<GameId> = self.games_set.keys().remaining().unref();
        let ghost games = self.games();
        assert(games.dom() =~= self.games_set@.dom());
        for k in it: self.games_set.keys()
            invariant
                games == self.games(),
                games.dom() == self.games_set@.dom(),
                it.seq().unref() == keys,
                keys.to_set() == games.dom(),
                best matches Some(b) ==> games.contains_key(b) && games[b].room_id == rid
                    && forall|i: int| 0 <= i < it.index() && games[keys[i]].room_id == rid ==> b <= keys[i],
                best is None ==> forall|i: int| 0 <= i < it.index() ==> games[keys[i]].room_id != rid,
        {
            assert(*k == keys[it.index() as int]);
            assert(keys.to_set().contains(*k));
            match self.games_set.get(k) {
                Some(game) => {
                    if game.get_rid() == rid {
                        match best {
                            Some(b) => {
                                if *k < b {
                                    best = Some(*k);
                                }
                            },
                            None => {
                                best = Some(*k);
                            },
                        }
                    }
                },
                None => {},
            }
        }
        proof {
            assert forall|g: GameId| games.contains_key(g) implies (best is None ==> games[g].room_id != rid)
                && (best matches Some(b) ==> (games[g].room_id == rid ==> b <= g)) by {
                assert(keys.to_set().contains(g));
                let i = choose|i: int| 0 <= i < keys.len() && keys[i] == g;
            }
            lemma_first_game_of(games, rid, best);
        }
        best
    }
}

} // verus!
