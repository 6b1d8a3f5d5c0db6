//! The state of a client that all of its parts share.

use vstd::prelude::*;
use crate::caro_protocol::{ConnectState, PlayerState, RoomId};
use crate::id_pool::NO_ID;
use crate::player_manager::{connection_of, with_connection};

verus! {

/// What a client knows of itself: its lifecycle state and the room it is in,
/// or `NO_ID` for none.
#[derive(Debug, Clone, Copy, PartialEq, Eq, Structural)]
pub struct GolbalState {
    pub player_state: PlayerState,
    pub current_rid: RoomId,
}

impl GolbalState {
    /// The state before the connection stands: logged in, not connected, in no room.
    pub fn new() -> (state: Self)
        ensures
            state == (Self {
                player_state: PlayerState::Logged(ConnectState::Disconnected),
                current_rid: NO_ID,
            }),
    {
        Self { player_state: PlayerState::Logged(ConnectState::Disconnected), current_rid: NO_ID }
    }

    pub fn set_player_state(&mut self, player_state: PlayerState)
        ensures
            *final(self) == (Self { player_state, ..*old(self) }),
    {
        self.player_state = player_state;
    }

    pub fn get_player_state(&self) -> (player_state: PlayerState)
        ensures
            player_state == self.player_state,
    {
        self.player_state
    }

    /// Replaces the connection part of the state and keeps the phase.
    pub fn set_connection_state(&mut self, connection_state: ConnectState)
        ensures
            *final(self) == (Self {
                player_state: with_connection(old(self).player_state, connection_state),
                ..*old(self)
            }),
    {
        match self.player_state {
            PlayerState::Logged(_conn_state) => {
                self.player_state = PlayerState::Logged(connection_state);
            },
            PlayerState::InRoom(_conn_state) => {
                self.player_state = PlayerState::InRoom(connection_state);
            },
            PlayerState::InGame(_conn_state) => {
                self.player_state = PlayerState::InGame(connection_state);
            },
        }
    }

    pub fn get_connection_state(&self) -> (connection_state: ConnectState)
        ensures
            connection_state == connection_of(self.player_state),
    {
        match self.player_state {
            PlayerState::Logged(conn_state) => conn_state,
            PlayerState::InRoom(conn_state) => conn_state,
            PlayerState::InGame(conn_state) => conn_state,
        }
    }

    pub fn set_current_rid(&mut self, rid: RoomId)
        ensures
            *final(self) == (Self { current_rid: rid, ..*old(self) }),
    {
        self.current_rid = rid;
    }

    pub fn get_current_rid(&self) -> (rid: RoomId)
        ensures
            rid == self.current_rid,
    {
        self.current_rid
    }
}

} // verus!
