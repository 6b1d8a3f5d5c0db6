//! What a client does when its user enters a command.
//!
//! The decisions are made here: the steps to take on the screen and on the
//! connection come back as a list, in the order in which they are to be taken.

use vstd::prelude::*;
use crate::caro_protocol::{
    ConnectState, Coordinate, InGameRequest, LoggedRequest, PlayerCode, PlayerState,
};
use crate::global_state::GolbalState;
use crate::input_from_user::{GeneralCommand, InGameCommand, InRoomCommand, LoggedCommand, UserCommand};
use crate::screen_manager::BoardManager;
use crate::server_response_executor::{ClientAction, ClientActionView, steps};

verus! {

/// Whether a client in `state` carries out `command`: general commands
/// always, the others only while connected and in the phase that they belong to.
pub open spec fn carries_out(state: PlayerState, command: UserCommand) -> bool {
    match command {
        UserCommand::General(_) => true,
        UserCommand::Logged(_) => state == PlayerState::Logged(ConnectState::Connected),
        UserCommand::InRoom(_) => state == PlayerState::InRoom(ConnectState::Connected),
        UserCommand::InGame(_) => state == PlayerState::InGame(ConnectState::Connected),
    }
}

/// The steps that moving the cursor by (`rows`, `columns`) takes.
pub open spec fn cursor_steps(cursor: Coordinate, rows: int, columns: int) -> Seq<ClientActionView> {
    seq![
        ClientActionView::SetCursorPos((cursor.0 + rows) as i64, (cursor.1 + columns) as i64),
        ClientActionView::UpdateBoardOnly,
    ]
}

/// The steps that a client takes on `command`, with the cursor on `cursor`
/// and the prompt shown or not.
///
/// Asking for a room, joining one and placing a mark send the request to
/// the server; `Enter` places a mark under the cursor. The arrow commands move
/// the cursor by one tile and show the board again. Switching the input mode
/// hides the prompt if it is shown and shows it otherwise. Every other command
/// takes no step.
pub open spec fn steps_on_command(
    state: PlayerState,
    cursor: Coordinate,
    is_prompt_mode: bool,
    command: UserCommand,
) -> Seq<ClientActionView> {
    if !carries_out(state, command) {
        Seq::empty()
    } else {
        match command {
            UserCommand::Logged(LoggedCommand::RequestNewRoom(game_rule)) => seq![
                ClientActionView::SendRequest(PlayerCode::Logged(LoggedRequest::RequestRoomAsPlayer1(game_rule))),
            ],
            UserCommand::Logged(LoggedCommand::JoinRoom(rid)) => seq![
                ClientActionView::SendRequest(PlayerCode::Logged(LoggedRequest::JoinRoom(rid))),
            ],
            UserCommand::InGame(InGameCommand::Move(position)) => seq![
                ClientActionView::SendRequest(PlayerCode::InGame(InGameRequest::PlayerMove(position))),
            ],
            UserCommand::InGame(InGameCommand::Enter) => seq![
                ClientActionView::SendRequest(PlayerCode::InGame(InGameRequest::PlayerMove(cursor))),
            ],
            UserCommand::InGame(InGameCommand::Up) => cursor_steps(cursor, -1, 0),
            UserCommand::InGame(InGameCommand::Down) => cursor_steps(cursor, 1, 0),
            UserCommand::InGame(InGameCommand::Left) => cursor_steps(cursor, 0, -1),
            UserCommand::InGame(InGameCommand::Right) => cursor_steps(cursor, 0, 1),
            UserCommand::InGame(InGameCommand::SwitchInputMode) => if is_prompt_mode {
                seq![ClientActionView::DisablePromptMode]
            } else {
                seq![ClientActionView::EnablePromptMode]
            },
            _ => Seq::empty(),
        }
    }
}

/// Carries out the commands of the user on behalf of a client.
pub struct CommandExecutor {}

impl CommandExecutor {
    pub fn new() -> Self {
        Self {  }
    }

    /// Returns the steps to take on `command`, if the command belongs to the
    /// phase the client is in.
    pub fn execute_command(
        &self,
        global_state: &GolbalState,
        board: &BoardManager,
        is_prompt_mode: bool,
        command: UserCommand,
    ) -> (actions: Vec<ClientAction>)
        requires
            board@.wf(),
        ensures
            steps(actions@) == steps_on_command(
                global_state.player_state,
                board@.cursor,
                is_prompt_mode,
                command,
            ),
    {
        let current_state = global_state.get_player_state();
        let actions = match command {
            UserCommand::General(command) => self.execute_general_command(command),
            UserCommand::Logged(command) => {
                if current_state == PlayerState::Logged(ConnectState::Connected) {
                    self.execute_logged_command(command)
                } else {
                    Vec::new()
                }
            },
            UserCommand::InRoom(command) => {
                if current_state == PlayerState::InRoom(ConnectState::Connected) {
                    self.execute_inroom_command(command)
                } else {
                    Vec::new()
                }
            },
            UserCommand::InGame(command) => {
                if current_state == PlayerState::InGame(ConnectState::Connected) {
                    self.execute_ingame_command(board, is_prompt_mode, command)
                } else {
                    Vec::new()
                }
            },
        };
        assert(steps(actions@) =~= steps_on_command(
            global_state.player_state,
            board@.cursor,
            is_prompt_mode,
            command,
        ));
        actions
    }

    fn execute_general_command(&self, command: GeneralCommand) -> (actions: Vec<ClientAction>)
        ensures
            actions@.len() == 0,
    {
        match command {
            GeneralCommand::ExitApplication => {},
            GeneralCommand::Invalid => {},
        }
        Vec::new()
    }

    fn execute_logged_command(&self, command: LoggedCommand) -> (actions: Vec<ClientAction>)
        ensures
            steps(actions@) =~= steps_on_command(
                PlayerState::Logged(ConnectState::Connected),
                (0, 0),
                false,
                UserCommand::Logged(command),
            ),
    {
        let mut actions: Vec<ClientAction> = Vec::new();
        match command {
            LoggedCommand::RequestNewRoom(game_rule) => {
                let code = PlayerCode::Logged(LoggedRequest::RequestRoomAsPlayer1(game_rule));
                actions.push(ClientAction::SendRequest(code));
            },
            LoggedCommand::JoinRoom(rid) => {
                let code = PlayerCode::Logged(LoggedRequest::JoinRoom(rid));
                actions.push(ClientAction::SendRequest(code));
            },
        }
        actions
    }

    fn execute_inroom_command(&self, command: InRoomCommand) -> (actions: Vec<ClientAction>)
        ensures
            actions@.len() == 0,
    {
        match command {
            InRoomCommand::LeaveRoom => {},
        }
        Vec::new()
    }

    fn execute_ingame_command(&self, board: &BoardManager, is_prompt_mode: bool, command: InGameCommand) -> (actions: Vec<ClientAction>)
        requires
            board@.wf(),
        ensures
            steps(actions@) =~= steps_on_command(
                PlayerState::InGame(ConnectState::Connected),
                board@.cursor,
                is_prompt_mode,
                UserCommand::InGame(command),
            ),
    {
        let cursor_position = board.get_cursor_pos();
        let mut actions: Vec<ClientAction> = Vec::new();
        match command {
            InGameCommand::Move(coor) => {
                let code = PlayerCode::InGame(InGameRequest::PlayerMove(coor));
                actions.push(ClientAction::SendRequest(code));
            },
            InGameCommand::Up => {
                actions.push(ClientAction::SetCursorPos(cursor_position.0 - 1, cursor_position.1));
                actions.push(ClientAction::UpdateBoardOnly);
            },
            InGameCommand::Down => {
                actions.push(ClientAction::SetCursorPos(cursor_position.0 + 1, cursor_position.1));
                actions.push(ClientAction::UpdateBoardOnly);
            },
            InGameCommand::Left => {
                actions.push(ClientAction::SetCursorPos(cursor_position.0, cursor_position.1 - 1));
                actions.push(ClientAction::UpdateBoardOnly);
            },
            InGameCommand::Right => {
                actions.push(ClientAction::SetCursorPos(cursor_position.0, cursor_position.1 + 1));
                actions.push(ClientAction::UpdateBoardOnly);
            },
            InGameCommand::Enter => {
                let code = PlayerCode::InGame(InGameRequest::PlayerMove(cursor_position));
                actions.push(ClientAction::SendRequest(code));
            },
            InGameCommand::Redo => {},
            InGameCommand::Undo => {},
            InGameCommand::SwitchInputMode => {
                if is_prompt_mode {
                    actions.push(ClientAction::DisablePromptMode);
                } else {
                    actions.push(ClientAction::EnablePromptMode);
                }
            },
            InGameCommand::LeaveRoom => {},
        }
        actions
    }
}

} // verus!
