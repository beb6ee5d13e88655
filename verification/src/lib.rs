//! A small game server: players log in, chat with one another, and play
//! board games (tick-tack-toe) whose state the server keeps.
pub mod client;
pub mod messaging;
pub mod plugins;
pub mod server;
pub mod text;
pub mod web;
