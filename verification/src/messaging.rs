//! The messages between client and server, and their JSON text.
//!
//! A message is written as `serde_json` writes an externally tagged enum: a
//! unit variant as its name in quotes, any other variant as an object whose
//! only key is the variant's name, and fields in the order of declaration.
use vstd::prelude::*;
use vstd::string::*;

use crate::plugins::{append_plugin_json, plugin_json, PluginType};
use crate::text::{append_decimal, append_json_string, decimal, json_string};

verus! {

/// A message from the server to a client.
#[derive(Debug)]
pub enum ServerMessage {
    LoginSuccess,
    LoginFailed { reason: String },
    RecvChatMessage { from: String, message: String },
    NewGameCreated { game_id: u64, plugin_type: PluginType },
    GameEntered { game_id: u64, plugin_type: PluginType, game_state_msg: String },
    GameUpdate { game_id: u64, msg: String },
}

/// The model of a message from the server: its strings by their characters.
pub enum ServerMessageView {
    LoginSuccess,
    LoginFailed { reason: Seq<char> },
    RecvChatMessage { from: Seq<char>, message: Seq<char> },
    NewGameCreated { game_id: u64, plugin_type: PluginType },
    GameEntered { game_id: u64, plugin_type: PluginType, game_state_msg: Seq<char> },
    GameUpdate { game_id: u64, msg: Seq<char> },
}

impl View for ServerMessage {
    type V = ServerMessageView;

    open spec fn view(&self) -> ServerMessageView {
        match self {
            ServerMessage::LoginSuccess => ServerMessageView::LoginSuccess,
            ServerMessage::LoginFailed { reason } => ServerMessageView::LoginFailed {
                reason: reason@,
            },
            ServerMessage::RecvChatMessage { from, message } => ServerMessageView::RecvChatMessage {
                from: from@,
                message: message@,
            },
            ServerMessage::NewGameCreated { game_id, plugin_type } => {
                ServerMessageView::NewGameCreated { game_id: *game_id, plugin_type: *plugin_type }
            },
            ServerMessage::GameEntered { game_id, plugin_type, game_state_msg } => {
                ServerMessageView::GameEntered {
                    game_id: *game_id,
                    plugin_type: *plugin_type,
                    game_state_msg: game_state_msg@,
                }
            },
            ServerMessage::GameUpdate { game_id, msg } => ServerMessageView::GameUpdate {
                game_id: *game_id,
                msg: msg@,
            },
        }
    }
}

impl Clone for ServerMessage {
    fn clone(&self) -> (res: Self)
        ensures
            res == *self,
    {
        match self {
            ServerMessage::LoginSuccess => ServerMessage::LoginSuccess,
            ServerMessage::LoginFailed { reason } => ServerMessage::LoginFailed {
                reason: reason.clone(),
            },
            ServerMessage::RecvChatMessage { from, message } => ServerMessage::RecvChatMessage {
                from: from.clone(),
                message: message.clone(),
            },
            ServerMessage::NewGameCreated { game_id, plugin_type } => {
                ServerMessage::NewGameCreated { game_id: *game_id, plugin_type: *plugin_type }
            },
            ServerMessage::GameEntered { game_id, plugin_type, game_state_msg } => {
                ServerMessage::GameEntered {
                    game_id: *game_id,
                    plugin_type: *plugin_type,
                    game_state_msg: game_state_msg.clone(),
                }
            },
            ServerMessage::GameUpdate { game_id, msg } => ServerMessage::GameUpdate {
                game_id: *game_id,
                msg: msg.clone(),
            },
        }
    }
}

/// A message from a client to the server.
#[derive(Debug)]
pub enum ClientMessage {
    HeartBeat,
    LoginRequest { username: String },
    SendChatMessage { recipient: String, message: String },
    RequestNewGame(PluginType),
    RequestEnterGame { game_id: u64 },
    RequestGameUpdate { game_id: u64, msg: String },
}

impl Clone for ClientMessage {
    fn clone(&self) -> (res: Self)
        ensures
            res == *self,
    {
        match self {
            ClientMessage::HeartBeat => ClientMessage::HeartBeat,
            ClientMessage::LoginRequest { username } => ClientMessage::LoginRequest {
                username: username.clone(),
            },
            ClientMessage::SendChatMessage { recipient, message } => {
                ClientMessage::SendChatMessage {
                    recipient: recipient.clone(),
                    message: message.clone(),
                }
            },
            ClientMessage::RequestNewGame(p) => ClientMessage::RequestNewGame(*p),
            ClientMessage::RequestEnterGame { game_id } => ClientMessage::RequestEnterGame {
                game_id: *game_id,
            },
            ClientMessage::RequestGameUpdate { game_id, msg } => ClientMessage::RequestGameUpdate {
                game_id: *game_id,
                msg: msg.clone(),
            },
        }
    }
}

/// The JSON text of a message from the server.
pub open spec fn server_message_json(m: ServerMessageView) -> Seq<char> {
    match m {
        ServerMessageView::LoginSuccess => "\"LoginSuccess\""@,
        ServerMessageView::LoginFailed { reason } => "{\"LoginFailed\":{\"reason\":"@
            + json_string(reason) + "}}"@,
        ServerMessageView::RecvChatMessage { from, message } =>
            "{\"RecvChatMessage\":{\"from\":"@ + json_string(from) + ",\"message\":"@
            + json_string(message) + "}}"@,
        ServerMessageView::NewGameCreated { game_id, plugin_type } =>
            "{\"NewGameCreated\":{\"game_id\":"@ + decimal(game_id as nat) + ",\"plugin_type\":"@
            + plugin_json(plugin_type) + "}}"@,
        ServerMessageView::GameEntered { game_id, plugin_type, game_state_msg } =>
            "{\"GameEntered\":{\"game_id\":"@ + decimal(game_id as nat) + ",\"plugin_type\":"@
            + plugin_json(plugin_type) + ",\"game_state_msg\":"@ + json_string(game_state_msg)
            + "}}"@,
        ServerMessageView::GameUpdate { game_id, msg } => "{\"GameUpdate\":{\"game_id\":"@
            + decimal(game_id as nat) + ",\"msg\":"@ + json_string(msg) + "}}"@,
    }
}

/// The model of a message from a client: its strings by their characters.
pub enum ClientMessageView {
    HeartBeat,
    LoginRequest { username: Seq<char> },
    SendChatMessage { recipient: Seq<char>, message: Seq<char> },
    RequestNewGame(PluginType),
    RequestEnterGame { game_id: u64 },
    RequestGameUpdate { game_id: u64, msg: Seq<char> },
}

impl View for ClientMessage {
    type V = ClientMessageView;

    open spec fn view(&self) -> ClientMessageView {
        match self {
            ClientMessage::HeartBeat => ClientMessageView::HeartBeat,
            ClientMessage::LoginRequest { username } => ClientMessageView::LoginRequest {
                username: username@,
            },
            ClientMessage::SendChatMessage { recipient, message } => {
                ClientMessageView::SendChatMessage { recipient: recipient@, message: message@ }
            },
            ClientMessage::RequestNewGame(p) => ClientMessageView::RequestNewGame(*p),
            ClientMessage::RequestEnterGame { game_id } => ClientMessageView::RequestEnterGame {
                game_id: *game_id,
            },
            ClientMessage::RequestGameUpdate { game_id, msg } => {
                ClientMessageView::RequestGameUpdate { game_id: *game_id, msg: msg@ }
            },
        }
    }
}

/// The JSON text of a message from a client.
pub open spec fn client_message_json(m: ClientMessageView) -> Seq<char> {
    match m {
        ClientMessageView::HeartBeat => "\"HeartBeat\""@,
        ClientMessageView::LoginRequest { username } => "{\"LoginRequest\":{\"username\":"@
            + json_string(username) + "}}"@,
        ClientMessageView::SendChatMessage { recipient, message } =>
            "{\"SendChatMessage\":{\"recipient\":"@ + json_string(recipient) + ",\"message\":"@
            + json_string(message) + "}}"@,
        ClientMessageView::RequestNewGame(plugin_type) => "{\"RequestNewGame\":"@ + plugin_json(
            plugin_type,
        ) + "}"@,
        ClientMessageView::RequestEnterGame { game_id } => "{\"RequestEnterGame\":{\"game_id\":"@
            + decimal(game_id as nat) + "}}"@,
        ClientMessageView::RequestGameUpdate { game_id, msg } =>
            "{\"RequestGameUpdate\":{\"game_id\":"@ + decimal(game_id as nat) + ",\"msg\":"@
            + json_string(msg) + "}}"@,
    }
}

/// A message that has a JSON text.
pub trait JsonMessage {
    /// The JSON text of the message.
    spec fn json(&self) -> Seq<char>;

    /// Writes the JSON text of the message.
    fn to_json(&self) -> (res: String)
        ensures
            res@ == self.json(),
    ;
}

impl JsonMessage for ServerMessage {
    open spec fn json(&self) -> Seq<char> {
        server_message_json(self@)
    }

    fn to_json(&self) -> (res: String) {
        let mut s = String::new();
        match self {
            ServerMessage::LoginSuccess => s.append("\"LoginSuccess\""),
            ServerMessage::LoginFailed { reason } => {
                s.append("{\"LoginFailed\":{\"reason\":");
                append_json_string(&mut s, reason.as_str());
                s.append("}}");
            },
            ServerMessage::RecvChatMessage { from, message } => {
                s.append("{\"RecvChatMessage\":{\"from\":");
                append_json_string(&mut s, from.as_str());
                s.append(",\"message\":");
                append_json_string(&mut s, message.as_str());
                s.append("}}");
            },
            ServerMessage::NewGameCreated { game_id, plugin_type } => {
                s.append("{\"NewGameCreated\":{\"game_id\":");
                append_decimal(&mut s, *game_id);
                s.append(",\"plugin_type\":");
                append_plugin_json(&mut s, *plugin_type);
                s.append("}}");
            },
            ServerMessage::GameEntered { game_id, plugin_type, game_state_msg } => {
                s.append("{\"GameEntered\":{\"game_id\":");
                append_decimal(&mut s, *game_id);
                s.append(",\"plugin_type\":");
                append_plugin_json(&mut s, *plugin_type);
                s.append(",\"game_state_msg\":");
                append_json_string(&mut s, game_state_msg.as_str());
                s.append("}}");
            },
            ServerMessage::GameUpdate { game_id, msg } => {
                s.append("{\"GameUpdate\":{\"game_id\":");
                append_decimal(&mut s, *game_id);
                s.append(",\"msg\":");
                append_json_string(&mut s, msg.as_str());
                s.append("}}");
            },
        }
        s
    }
}

impl JsonMessage for ClientMessage {
    open spec fn json(&self) -> Seq<char> {
        client_message_json(self@)
    }

    fn to_json(&self) -> (res: String) {
        let mut s = String::new();
        match self {
            ClientMessage::HeartBeat => s.append("\"HeartBeat\""),
            ClientMessage::LoginRequest { username } => {
                s.append("{\"LoginRequest\":{\"username\":");
                append_json_string(&mut s, username.as_str());
                s.append("}}");
            },
            ClientMessage::SendChatMessage { recipient, message } => {
                s.append("{\"SendChatMessage\":{\"recipient\":");
                append_json_string(&mut s, recipient.as_str());
                s.append(",\"message\":");
                append_json_string(&mut s, message.as_str());
                s.append("}}");
            },
            ClientMessage::RequestNewGame(plugin_type) => {
                s.append("{\"RequestNewGame\":");
                append_plugin_json(&mut s, *plugin_type);
                s.append("}");
            },
            ClientMessage::RequestEnterGame { game_id } => {
                s.append("{\"RequestEnterGame\":{\"game_id\":");
                append_decimal(&mut s, *game_id);
                s.append("}}");
            },
            ClientMessage::RequestGameUpdate { game_id, msg } => {
                s.append("{\"RequestGameUpdate\":{\"game_id\":");
                append_decimal(&mut s, *game_id);
                s.append(",\"msg\":");
                append_json_string(&mut s, msg.as_str());
                s.append("}}");
            },
        }
        s
    }
}

/// The JSON text of a message. Writing a message's text cannot fail.
pub fn serialise_string<T: JsonMessage>(msg: &T) -> (res: Result<String, String>)
    ensures
        res matches Ok(s) && s@ == msg.json(),
{
    Ok(msg.to_json())
}

/// The UTF-8 bytes of the JSON text of a message. Writing a message's text
/// cannot fail.
pub fn serialise<T: JsonMessage>(msg: &T) -> (res: Result<Vec<u8>, String>)
    ensures
        res matches Ok(b) && b@ == vstd::utf8::encode_utf8(msg.json()),
{
    let s = msg.to_json();
    Ok(s.as_str().as_bytes_vec())
}

impl ServerMessage {
    /// The UTF-8 bytes of the message's JSON text.
    pub fn serialise(&self) -> (res: Result<Vec<u8>, String>)
        ensures
            res matches Ok(b) && b@ == vstd::utf8::encode_utf8(server_message_json(self@)),
    {
        serialise(self)
    }
}

impl ClientMessage {
    /// The UTF-8 bytes of the message's JSON text.
    pub fn serialise(&self) -> (res: Result<Vec<u8>, String>)
        ensures
            res matches Ok(b) && b@ == vstd::utf8::encode_utf8(client_message_json(self@)),
    {
        serialise(self)
    }

    /// The message's JSON text.
    pub fn serialise_string(&self) -> (res: Result<String, String>)
        ensures
            res matches Ok(s) && s@ == client_message_json(self@),
    {
        serialise_string(self)
    }
}

} // verus!
