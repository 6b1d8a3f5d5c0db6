//! Session orchestration for a two-player, turn-based board game played over
//! a network.
//!
//! The server side: a pool of reusable ids (`id_pool`); the registries of
//! players, rooms and games (`player_manager`, `room_manager`,
//! `game_manager`); the rule engine that plays a game (`simple_caro`); the
//! dispatcher that routes each request to the handler for the sender's phase
//! (`client_request_executor`), with the server as a mathematical value
//! (`server_model`) and what holds of it (`laws`, `invariants`).
//!
//! Both sides: the messages (`caro_protocol`) and their framing on a byte
//! stream (`communication`).
//!
//! The client side: what the user can enter (`input_from_user`), what the
//! client does on a command (`user_command_executor`) and on a message of the
//! server (`server_response_executor`), and what it keeps of itself and of the
//! board (`client_state`, `global_state`, `screen_manager`).
//!
//! Nothing here reads or writes: the functions decide, and their callers act.

pub mod caro_protocol;
pub mod client_request_executor;
pub mod client_state;
pub mod communication;
pub mod game_manager;
pub mod global_state;
pub mod id_pool;
pub mod input_from_user;
pub mod invariants;
pub mod laws;
pub mod player_manager;
pub mod room_manager;
pub mod screen_manager;
pub mod server_model;
pub mod server_response_executor;
pub mod simple_caro;
pub mod user_command_executor;
