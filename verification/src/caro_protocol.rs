//! The messages that players and the server exchange, grouped by the phase of
//! a player's life in which each is legal.

use vstd::prelude::*;

verus! {

/// The address on which the server listens.
pub const SERVER_ADDRESS: &'static str = "127.0.0.1:12225";

pub type Latitude = i64;

pub type Longtitude = i64;

pub type RoomId = i32;

pub type PlayerId = i32;

pub type GameId = i32;

pub type Coordinate = (Latitude, Longtitude);

pub type Row = Vec<TileState>;

/// The rule of a game: how long a winning line is and how blocking counts.
#[derive(Debug, Clone, Copy, PartialEq, Eq, Structural)]
pub enum GameRule {
    TicTacToe,
    FourBlockOne,
    FiveBlockTwo,
}

/// What stands on a tile of the board.
#[derive(Debug, Clone, Copy, PartialEq, Eq, Structural)]
pub enum TileState {
    Empty,
    Player1,
    Player2,
}

/// Whose turn it is, or how the game ended, or that no game is running.
#[derive(Debug, Clone, Copy, PartialEq, Eq, Structural)]
pub enum GameState {
    Player1Turn,
    Player2Turn,
    Player1Won,
    Player2Won,
    Drew,
    NotInprogress,
}

/// Whether a player answers the liveness probe.
#[derive(Debug, Clone, Copy, PartialEq, Eq, Structural)]
pub enum ConnectState {
    Connected,
    Disconnected,
}

/// The phase of a player's life, each with the state of the connection.
#[derive(Debug, Clone, Copy, PartialEq, Eq, Structural)]
pub enum PlayerState {
    Logged(ConnectState),
    InRoom(ConnectState),
    InGame(ConnectState),
}

/// One of the two seats of a room.
#[derive(Debug, Clone, Copy, PartialEq, Eq, Structural)]
pub enum PlayerOrder {
    Player1,
    Player2,
}

/// The full snapshot of a game as one of its two players receives it.
#[derive(Debug, PartialEq, Eq)]
pub struct GameContext {
    pub board_height: usize,
    pub board_width: usize,
    pub player1_move_history: Vec<Coordinate>,
    pub player2_move_history: Vec<Coordinate>,
    pub player1_undone_moves: Vec<Coordinate>,
    pub player2_undone_moves: Vec<Coordinate>,
    pub game_state: GameState,
    pub player1_connection_state: ConnectState,
    pub player2_connection_state: ConnectState,
    pub receiver_order: PlayerOrder,
}

/// What a `GameContext` holds, with sequences in place of vectors.
pub struct GameContextView {
    pub board_height: usize,
    pub board_width: usize,
    pub player1_move_history: Seq<Coordinate>,
    pub player2_move_history: Seq<Coordinate>,
    pub player1_undone_moves: Seq<Coordinate>,
    pub player2_undone_moves: Seq<Coordinate>,
    pub game_state: GameState,
    pub player1_connection_state: ConnectState,
    pub player2_connection_state: ConnectState,
    pub receiver_order: PlayerOrder,
}

impl View for GameContext {
    type V = GameContextView;

    open spec fn view(&self) -> GameContextView {
        GameContextView {
            board_height: self.board_height,
            board_width: self.board_width,
            player1_move_history: self.player1_move_history@,
            player2_move_history: self.player2_move_history@,
            player1_undone_moves: self.player1_undone_moves@,
            player2_undone_moves: self.player2_undone_moves@,
            game_state: self.game_state,
            player1_connection_state: self.player1_connection_state,
            player2_connection_state: self.player2_connection_state,
            receiver_order: self.receiver_order,
        }
    }
}

/// A copy of a list of coordinates.
pub fn copy_coordinates(list: &Vec<Coordinate>) -> (copy: Vec<Coordinate>)
    ensures
        copy@ == list@,
{
    let mut copy: Vec<Coordinate> = Vec::new();
    let mut i: usize = 0;
    while i < list.len()
        invariant
            i <= list.len(),
            copy@ == list@.subrange(0, i as int),
        decreases list.len() - i,
    {
        copy.push(list[i]);
        i = i + 1;
        assert(copy@ =~= list@.subrange(0, i as int));
    }
    assert(list@.subrange(0, list.len() as int) =~= list@);
    copy
}

impl Clone for GameContext {
    fn clone(&self) -> (copy: Self)
        ensures
            copy@ == self@,
    {
        GameContext {
            board_height: self.board_height,
            board_width: self.board_width,
            player1_move_history: copy_coordinates(&self.player1_move_history),
            player2_move_history: copy_coordinates(&self.player2_move_history),
            player1_undone_moves: copy_coordinates(&self.player1_undone_moves),
            player2_undone_moves: copy_coordinates(&self.player2_undone_moves),
            game_state: self.game_state,
            player1_connection_state: self.player1_connection_state,
            player2_connection_state: self.player2_connection_state,
            receiver_order: self.receiver_order,
        }
    }
}

/// Requests that are legal in every state.
#[derive(Debug, Clone, Copy, PartialEq, Eq, Structural)]
pub enum GeneralRequest {
    PlayerRequestState,
    PlayerExitApplication,
    IAmAlive,
}

/// Requests of a player that is in no room.
#[derive(Debug, Clone, Copy, PartialEq, Eq, Structural)]
pub enum LoggedRequest {
    RequestRoomAsPlayer1(GameRule),
    JoinRoom(RoomId),
}

/// Requests of a player that waits in a room.
#[derive(Debug, Clone, Copy, PartialEq, Eq, Structural)]
pub enum InRoomRequest {
    PlayerLeaveRoom,
}

/// Requests of a player whose game has started.
#[derive(Debug, Clone, Copy, PartialEq, Eq)]
pub enum InGameRequest {
    PlayerMove(Coordinate),
    PlayerUndo,
    PlayerRedo,
    PlayerRequestContext,
    PlayerLeaveRoom,
}

/// A request of a player, under the phase in which it is legal.
#[derive(Debug, Clone, Copy, PartialEq, Eq)]
pub enum PlayerCode {
    General(GeneralRequest),
    Logged(LoggedRequest),
    InRoom(InRoomRequest),
    InGame(InGameRequest),
}

/// Messages that the server sends in every phase.
#[derive(Debug, Clone, Copy, PartialEq, Eq, Structural)]
pub enum GeneralResponse {
    State(PlayerState),
    AreYouAlive,
}

/// Answers to a player that asked for a room or to join one.
#[derive(Debug, Clone, Copy, PartialEq, Eq, Structural)]
pub enum LoggedResponse {
    JoinedRoomAsPlayer1(RoomId),
    JoinedRoomAsPlayer2(RoomId),
    FailedToCreateRoom,
    FailedToJoinRoom(RoomId),
}

/// Messages to a player that waits in a room.
#[derive(Debug, Clone, Copy, PartialEq, Eq, Structural)]
pub enum InRoomResponse {
    YourRoomIsFull(RoomId),
}

/// Messages to a player in a game.
#[derive(Debug, PartialEq, Eq)]
pub enum InGameResponse {
    MoveSuccess,
    MoveUnsuccess,
    Context(GameContext),
}

/// What an `InGameResponse` holds, with sequences in place of vectors.
pub enum InGameResponseView {
    MoveSuccess,
    MoveUnsuccess,
    Context(GameContextView),
}

impl View for InGameResponse {
    type V = InGameResponseView;

    open spec fn view(&self) -> InGameResponseView {
        match self {
            InGameResponse::MoveSuccess => InGameResponseView::MoveSuccess,
            InGameResponse::MoveUnsuccess => InGameResponseView::MoveUnsuccess,
            InGameResponse::Context(context) => InGameResponseView::Context(context@),
        }
    }
}

impl Clone for InGameResponse {
    fn clone(&self) -> (copy: Self)
        ensures
            copy@ == self@,
    {
        match self {
            InGameResponse::MoveSuccess => InGameResponse::MoveSuccess,
            InGameResponse::MoveUnsuccess => InGameResponse::MoveUnsuccess,
            InGameResponse::Context(context) => InGameResponse::Context(context.clone()),
        }
    }
}

/// A message of the server, under the phase that it belongs to.
#[derive(Debug, PartialEq, Eq)]
pub enum ServerCode {
    General(GeneralResponse),
    Logged(LoggedResponse),
    InRoom(InRoomResponse),
    InGame(InGameResponse),
}

/// What a `ServerCode` holds, with sequences in place of vectors.
pub enum ServerCodeView {
    General(GeneralResponse),
    Logged(LoggedResponse),
    InRoom(InRoomResponse),
    InGame(InGameResponseView),
}

impl View for ServerCode {
    type V = ServerCodeView;

    open spec fn view(&self) -> ServerCodeView {
        match self {
            ServerCode::General(r) => ServerCodeView::General(*r),
            ServerCode::Logged(r) => ServerCodeView::Logged(*r),
            ServerCode::InRoom(r) => ServerCodeView::InRoom(*r),
            ServerCode::InGame(r) => ServerCodeView::InGame(r@),
        }
    }
}

impl Clone for ServerCode {
    fn clone(&self) -> (copy: Self)
        ensures
            copy@ == self@,
    {
        match self {
            ServerCode::General(r) => ServerCode::General(*r),
            ServerCode::Logged(r) => ServerCode::Logged(*r),
            ServerCode::InRoom(r) => ServerCode::InRoom(*r),
            ServerCode::InGame(r) => ServerCode::InGame(r.clone()),
        }
    }
}

/// A message of either side.
#[derive(Debug, PartialEq, Eq)]
pub enum GenericCode {
    Player(PlayerCode),
    Server(ServerCode),
}

/// What a `GenericCode` holds, with sequences in place of vectors.
pub enum GenericCodeView {
    Player(PlayerCode),
    Server(ServerCodeView),
}

impl View for GenericCode {
    type V = GenericCodeView;

    open spec fn view(&self) -> GenericCodeView {
        match self {
            GenericCode::Player(code) => GenericCodeView::Player(*code),
            GenericCode::Server(code) => GenericCodeView::Server(code@),
        }
    }
}

impl Clone for GenericCode {
    fn clone(&self) -> (copy: Self)
        ensures
            copy@ == self@,
    {
        match self {
            GenericCode::Player(code) => GenericCode::Player(*code),
            GenericCode::Server(code) => GenericCode::Server(code.clone()),
        }
    }
}

/// One message of the wire protocol.
#[derive(Debug, PartialEq, Eq)]
pub struct MessagePacket {
    code: GenericCode,
}

impl View for MessagePacket {
    type V = GenericCodeView;

    closed spec fn view(&self) -> GenericCodeView {
        self.code@
    }
}

impl Clone for MessagePacket {
    fn clone(&self) -> (copy: Self)
        ensures
            copy@ == self@,
    {
        MessagePacket { code: self.code.clone() }
    }
}

impl MessagePacket {
    pub fn new_server_packet(code: ServerCode) -> (packet: Self)
        ensures
            packet@ == GenericCodeView::Server(code@),
    {
        Self { code: GenericCode::Server(code) }
    }

    pub fn new_player_packet(code: PlayerCode) -> (packet: Self)
        ensures
            packet@ == GenericCodeView::Player(code),
    {
        Self { code: GenericCode::Player(code) }
    }

    pub fn code(&self) -> (code: GenericCode)
        ensures
            code@ == self@,
    {
        self.code.clone()
    }
}

/// Conversion of a decoded code into the packet that carries it.
pub trait ToMessagePacket {
    fn to_message_packet(self) -> MessagePacket;
}

impl ToMessagePacket for GenericCode {
    fn to_message_packet(self) -> (packet: MessagePacket)
        ensures
            packet@ == self@,
    {
        match self {
            GenericCode::Server(server_code) => MessagePacket::new_server_packet(server_code),
            GenericCode::Player(player_code) => MessagePacket::new_player_packet(player_code),
        }
    }
}

} // verus!
