//! What a client does when a message of the server arrives.
//!
//! The decisions are made here: the client's state changes, and the steps
//! to take on the screen and on the connection come back as a list, in the
//! order in which they are to be taken.

use vstd::prelude::*;
use crate::caro_protocol::{
    ConnectState, GameContext, GameContextView, GeneralRequest, GeneralResponse, InGameResponse,
    InGameResponseView, InRoomResponse, Latitude, LoggedResponse, Longtitude, PlayerCode, PlayerOrder,
    PlayerState, RoomId, ServerCode, ServerCodeView,
};
use crate::global_state::GolbalState;

verus! {

/// What the log line of the screen says.
#[derive(Debug, Clone, Copy, PartialEq, Eq, Structural)]
pub enum LogContent {
    JoinedRoomAsPlayer1(RoomId),
    JoinedRoomAsPlayer2(RoomId),
    GameIsReady,
}

/// One step that a client takes on its screen or on its connection.
#[derive(Debug, PartialEq, Eq)]
pub enum ClientAction {
    SendRequest(PlayerCode),
    CleanScreen,
    SetPlayerOrder(PlayerOrder),
    UpdateScreen,
    UpdateBoardOnly,
    Log(LogContent),
    EnablePromptMode,
    DisablePromptMode,
    SetCursorPos(Latitude, Longtitude),
    UpdateGameContext(GameContext),
}

/// What a `ClientAction` holds, with sequences in place of vectors.
pub enum ClientActionView {
    SendRequest(PlayerCode),
    CleanScreen,
    SetPlayerOrder(PlayerOrder),
    UpdateScreen,
    UpdateBoardOnly,
    Log(LogContent),
    EnablePromptMode,
    DisablePromptMode,
    SetCursorPos(Latitude, Longtitude),
    UpdateGameContext(GameContextView),
}

impl View for ClientAction {
    type V = ClientActionView;

    open spec fn view(&self) -> ClientActionView {
        match self {
            ClientAction::SendRequest(code) => ClientActionView::SendRequest(*code),
            ClientAction::CleanScreen => ClientActionView::CleanScreen,
            ClientAction::SetPlayerOrder(order) => ClientActionView::SetPlayerOrder(*order),
            ClientAction::UpdateScreen => ClientActionView::UpdateScreen,
            ClientAction::UpdateBoardOnly => ClientActionView::UpdateBoardOnly,
            ClientAction::Log(content) => ClientActionView::Log(*content),
            ClientAction::EnablePromptMode => ClientActionView::EnablePromptMode,
            ClientAction::DisablePromptMode => ClientActionView::DisablePromptMode,
            ClientAction::SetCursorPos(latitude, longtitude) => ClientActionView::SetCursorPos(
                *latitude,
                *longtitude,
            ),
            ClientAction::UpdateGameContext(context) => ClientActionView::UpdateGameContext(context@),
        }
    }
}

/// The steps of `actions`, in order.
pub open spec fn steps(actions: Seq<ClientAction>) -> Seq<ClientActionView> {
    Seq::new(actions.len(), |i: int| actions[i]@)
}

/// Whether a client in `state` takes up `response`: general messages always,
/// the others only while connected and in the phase that they belong to.
pub open spec fn takes_up(state: PlayerState, response: ServerCodeView) -> bool {
    match response {
        ServerCodeView::General(_) => true,
        ServerCodeView::Logged(_) => state == PlayerState::Logged(ConnectState::Connected),
        ServerCodeView::InRoom(_) => state == PlayerState::InRoom(ConnectState::Connected),
        ServerCodeView::InGame(_) => state == PlayerState::InGame(ConnectState::Connected),
    }
}

/// The client's state after `response` arrived: joining a room makes the
/// client wait in it, a full room starts the game, and both remember the
/// room. Nothing else changes the state.
pub open spec fn state_after_response(state: GolbalState, response: ServerCodeView) -> GolbalState {
    if !takes_up(state.player_state, response) {
        state
    } else {
        match response {
            ServerCodeView::Logged(LoggedResponse::JoinedRoomAsPlayer1(rid)) => GolbalState {
                player_state: PlayerState::InRoom(ConnectState::Connected),
                current_rid: rid,
            },
            ServerCodeView::Logged(LoggedResponse::JoinedRoomAsPlayer2(rid)) => GolbalState {
                player_state: PlayerState::InRoom(ConnectState::Connected),
                current_rid: rid,
            },
            ServerCodeView::InRoom(InRoomResponse::YourRoomIsFull(rid)) => GolbalState {
                player_state: PlayerState::InGame(ConnectState::Connected),
                current_rid: rid,
            },
            _ => state,
        }
    }
}

/// The steps that a client in `state` takes when `response` arrives.
pub open spec fn steps_on_response(state: GolbalState, response: ServerCodeView) -> Seq<ClientActionView> {
    if !takes_up(state.player_state, response) {
        Seq::empty()
    } else {
        match response {
            ServerCodeView::General(GeneralResponse::AreYouAlive) => seq![
                ClientActionView::SendRequest(PlayerCode::General(GeneralRequest::IAmAlive)),
            ],
            ServerCodeView::Logged(LoggedResponse::JoinedRoomAsPlayer1(rid)) => seq![
                ClientActionView::CleanScreen,
                ClientActionView::SetPlayerOrder(PlayerOrder::Player1),
                ClientActionView::UpdateScreen,
                ClientActionView::Log(LogContent::JoinedRoomAsPlayer1(rid)),
                ClientActionView::EnablePromptMode,
            ],
            ServerCodeView::Logged(LoggedResponse::JoinedRoomAsPlayer2(rid)) => seq![
                ClientActionView::CleanScreen,
                ClientActionView::SetPlayerOrder(PlayerOrder::Player2),
                ClientActionView::UpdateScreen,
                ClientActionView::Log(LogContent::JoinedRoomAsPlayer2(rid)),
                ClientActionView::EnablePromptMode,
            ],
            ServerCodeView::InRoom(InRoomResponse::YourRoomIsFull(_)) => seq![
                ClientActionView::CleanScreen,
                ClientActionView::UpdateScreen,
                ClientActionView::Log(LogContent::GameIsReady),
                ClientActionView::EnablePromptMode,
            ],
            ServerCodeView::InGame(InGameResponseView::Context(context)) => seq![
                ClientActionView::UpdateGameContext(context),
                ClientActionView::UpdateBoardOnly,
            ],
            _ => Seq::empty(),
        }
    }
}

/// Handles the messages of the server on behalf of a client.
pub struct ResponseExecutor {}

impl ResponseExecutor {
    pub fn new() -> Self {
        Self {  }
    }

    /// Takes up `response_type` if it belongs to the phase the client is in,
    /// changes the client's state and returns the steps to take.
    pub fn execute_response(&self, global_state: &mut GolbalState, response_type: ServerCode) -> (actions: Vec<ClientAction>)
        ensures
            *final(global_state) == state_after_response(*old(global_state), response_type@),
            steps(actions@) == steps_on_response(*old(global_state), response_type@),
    {
        let current_state = global_state.get_player_state();
        let actions = match response_type {
            ServerCode::General(code) => self.execute_general_response(code),
            ServerCode::Logged(code) => {
                if current_state == PlayerState::Logged(ConnectState::Connected) {
                    self.execute_logged_response(global_state, code)
                } else {
                    Vec::new()
                }
            },
            ServerCode::InRoom(code) => {
                if current_state == PlayerState::InRoom(ConnectState::Connected) {
                    self.execute_inroom_response(global_state, code)
                } else {
                    Vec::new()
                }
            },
            ServerCode::InGame(code) => {
                if current_state == PlayerState::InGame(ConnectState::Connected) {
                    self.execute_ingame_response(code)
                } else {
                    Vec::new()
                }
            },
        };
        assert(steps(actions@) =~= steps_on_response(*old(global_state), response_type@));
        actions
    }

    fn execute_general_response(&self, code: GeneralResponse) -> (actions: Vec<ClientAction>)
        ensures
            steps(actions@) =~= match code {
                GeneralResponse::AreYouAlive => seq![
                    ClientActionView::SendRequest(PlayerCode::General(GeneralRequest::IAmAlive)),
                ],
                GeneralResponse::State(_) => Seq::empty(),
            },
    {
        let mut actions: Vec<ClientAction> = Vec::new();
        match code {
            GeneralResponse::State(_your_state) => {},
            GeneralResponse::AreYouAlive => {
                actions.push(ClientAction::SendRequest(PlayerCode::General(GeneralRequest::IAmAlive)));
            },
        }
        actions
    }

    fn execute_logged_response(&self, global_state: &mut GolbalState, code: LoggedResponse) -> (actions: Vec<
        ClientAction,
    >)
        requires
            old(global_state).player_state == PlayerState::Logged(ConnectState::Connected),
        ensures
            *final(global_state) == state_after_response(*old(global_state), ServerCodeView::Logged(code)),
            steps(actions@) =~= steps_on_response(*old(global_state), ServerCodeView::Logged(code)),
    {
        let mut actions: Vec<ClientAction> = Vec::new();
        match code {
            LoggedResponse::JoinedRoomAsPlayer1(rid) => {
                match global_state.get_connection_state() {
                    ConnectState::Connected => {
                        global_state.set_player_state(PlayerState::InRoom(ConnectState::Connected));
                        global_state.set_current_rid(rid);
                        actions.push(ClientAction::CleanScreen);
                        actions.push(ClientAction::SetPlayerOrder(PlayerOrder::Player1));
                        actions.push(ClientAction::UpdateScreen);
                        actions.push(ClientAction::Log(LogContent::JoinedRoomAsPlayer1(rid)));
                        actions.push(ClientAction::EnablePromptMode);
                    },
                    ConnectState::Disconnected => {},
                }
            },
            LoggedResponse::JoinedRoomAsPlayer2(rid) => {
                match global_state.get_connection_state() {
                    ConnectState::Connected => {
                        global_state.set_player_state(PlayerState::InRoom(ConnectState::Connected));
                        global_state.set_current_rid(rid);
                        actions.push(ClientAction::CleanScreen);
                        actions.push(ClientAction::SetPlayerOrder(PlayerOrder::Player2));
                        actions.push(ClientAction::UpdateScreen);
                        actions.push(ClientAction::Log(LogContent::JoinedRoomAsPlayer2(rid)));
                        actions.push(ClientAction::EnablePromptMode);
                    },
                    ConnectState::Disconnected => {},
                }
            },
            LoggedResponse::FailedToCreateRoom => {},
            LoggedResponse::FailedToJoinRoom(_rid) => {},
        }
        actions
    }

    fn execute_inroom_response(&self, global_state: &mut GolbalState, code: InRoomResponse) -> (actions: Vec<
        ClientAction,
    >)
        requires
            old(global_state).player_state == PlayerState::InRoom(ConnectState::Connected),
        ensures
            *final(global_state) == state_after_response(*old(global_state), ServerCodeView::InRoom(code)),
            steps(actions@) =~= steps_on_response(*old(global_state), ServerCodeView::InRoom(code)),
    {
        let mut actions: Vec<ClientAction> = Vec::new();
        match code {
            InRoomResponse::YourRoomIsFull(rid) => {
                match global_state.get_connection_state() {
                    ConnectState::Connected => {
                        global_state.set_player_state(PlayerState::InGame(ConnectState::Connected));
                        global_state.set_current_rid(rid);
                        actions.push(ClientAction::CleanScreen);
                        actions.push(ClientAction::UpdateScreen);
                        actions.push(ClientAction::Log(LogContent::GameIsReady));
                        actions.push(ClientAction::EnablePromptMode);
                    },
                    ConnectState::Disconnected => {},
                }
            },
        }
        actions
    }

    fn execute_ingame_response(&self, code: InGameResponse) -> (actions: Vec<ClientAction>)
        ensures
            steps(actions@) =~= match code@ {
                InGameResponseView::Context(context) => seq![
                    ClientActionView::UpdateGameContext(context),
                    ClientActionView::UpdateBoardOnly,
                ],
                _ => Seq::empty(),
            },
    {
        let mut actions: Vec<ClientAction> = Vec::new();
        match code {
            InGameResponse::MoveSuccess => {},
            InGameResponse::MoveUnsuccess => {},
            InGameResponse::Context(game_context) => {
                actions.push(ClientAction::UpdateGameContext(game_context));
                actions.push(ClientAction::UpdateBoardOnly);
            },
        }
        actions
    }
}

} // verus!
