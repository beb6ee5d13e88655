//! What the server keeps: the hosted games and the users.
pub mod game_states;
pub mod users;
pub mod server;
