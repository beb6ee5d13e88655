//! What the terminal client shows: its user, the games on offer, the game it
//! plays, and the chat.
use vstd::prelude::*;
use vstd::string::*;

use crate::plugins::{ClientState, PluginType};

verus! {

/// A chat message: to its recipient when sent, from its sender when received.
pub struct ChatMessage {
    pub username: String,
    pub message: String,
}

/// The client's state of the world.
pub struct Model {
    /// The user of this client.
    pub username: String,
    /// The games that the server announced, with their kinds.
    pub active_games: Vec<(u64, PluginType)>,
    /// The game this client plays, with its id.
    pub current_game: Option<(u64, ClientState)>,
    /// The chat messages received.
    pub chat_history: Vec<ChatMessage>,
    /// The lines of the chat message being typed.
    pub chat_input: Vec<String>,
    /// The last problem with the chat, for the user to see.
    pub chat_error: String,
}

impl Model {
    /// The state of a client that has just started, for the user `username`.
    pub fn new(username: &str) -> (res: Self)
        ensures
            res.username@ == username@,
            res.active_games@ == Seq::<(u64, PluginType)>::empty(),
            res.current_game is None,
            res.chat_history@.len() == 0,
            res.chat_input@.len() == 0,
            res.chat_error@ == Seq::<char>::empty(),
    {
        Model {
            username: String::from_str(username),
            active_games: Vec::new(),
            current_game: None,
            chat_history: Vec::new(),
            chat_input: Vec::new(),
            chat_error: String::new(),
        }
    }
}

} // verus!
