//! The browser client's engine: the messages it sends, and its login
//! handshake. `F` is the type of the page's callbacks.
use vstd::prelude::*;
use vstd::string::*;

use crate::messaging::{client_message_json, ClientMessage, ClientMessageView, ServerMessage};

verus! {

/// Where the login handshake stands.
pub enum LoginStatus<F> {
    NotLoggedOn,
    /// A login request went out; one of the callbacks is to run on the answer.
    AwaitingResponse { on_success: F, on_failed: F },
    LoggedOn,
    LoginFailed,
}

/// What the page is to do after a message from the server.
pub enum Reaction<F> {
    /// Nothing.
    Nothing,
    /// Schedule this login callback.
    Schedule(F),
    /// An answer to a login came while no login was awaited.
    InvalidLoginStatus,
    /// Hand this chat message to the chat callback.
    Chat { from: String, message: String },
}

/// The browser client's engine.
pub struct Engine<F> {
    send_bytes: F,
    login_status: LoginStatus<F>,
    on_recv_chat_msg: Option<F>,
}

/// The status after a login request: from `NotLoggedOn` the engine awaits
/// the answer with the given callbacks; otherwise the request is refused and
/// the status stays.
pub open spec fn status_after_login_req<F>(s: LoginStatus<F>, on_success: F, on_failed: F) -> LoginStatus<F> {
    if s is NotLoggedOn {
        LoginStatus::AwaitingResponse { on_success, on_failed }
    } else {
        s
    }
}

/// What an answer to a login (`success` or not) comes to: the callback for
/// that answer, if a login was awaited.
pub open spec fn login_reply_reaction<F>(s: LoginStatus<F>, success: bool) -> Reaction<F> {
    match s {
        LoginStatus::AwaitingResponse { on_success, on_failed } => Reaction::Schedule(
            if success {
                on_success
            } else {
                on_failed
            },
        ),
        _ => Reaction::InvalidLoginStatus,
    }
}

/// The text of the error for a login while one is under way or done.
pub open spec fn invalid_login_status_error() -> Seq<char> {
    "Invalid login status"@
}

impl<F> Engine<F> {
    /// Where the login handshake stands.
    pub closed spec fn status(&self) -> LoginStatus<F> {
        self.login_status
    }

    /// The callback for chat messages, if the page set one.
    pub closed spec fn chat_callback(&self) -> Option<F> {
        self.on_recv_chat_msg
    }

    /// The callback that sends text to the server.
    pub closed spec fn sender(&self) -> F {
        self.send_bytes
    }

    /// An engine that sends with `send_bytes`, not logged on, without a chat
    /// callback.
    pub fn new(send_bytes: F) -> (res: Self)
        ensures
            res.sender() == send_bytes,
            res.status() is NotLoggedOn,
            res.chat_callback() is None,
    {
        Engine { send_bytes, login_status: LoginStatus::NotLoggedOn, on_recv_chat_msg: None }
    }

    /// The callback that sends text to the server.
    pub fn send_bytes(&self) -> (res: &F)
        ensures
            *res == self.sender(),
    {
        &self.send_bytes
    }

    /// The callback for chat messages, if the page set one.
    pub fn on_recv_chat_msg(&self) -> (res: Option<&F>)
        ensures
            match self.chat_callback() {
                Some(f) => res == Some(&f),
                None => res is None,
            },
    {
        match &self.on_recv_chat_msg {
            Some(f) => Some(f),
            None => None,
        }
    }

    /// Sets the callback for chat messages.
    pub fn set_on_recv_chat_msg(&mut self, on_recv_chat_msg: F)
        ensures
            final(self).chat_callback() == Some(on_recv_chat_msg),
            final(self).status() == old(self).status(),
            final(self).sender() == old(self).sender(),
    {
        self.on_recv_chat_msg = Some(on_recv_chat_msg);
    }

    /// The text to send for `message`. Writing a message's text cannot fail.
    pub fn send_message(&self, message: ClientMessage) -> (res: Result<String, String>)
        ensures
            res matches Ok(s) && s@ == client_message_json(message@),
    {
        message.serialise_string()
    }

    /// Starts a login of `username`: only from `NotLoggedOn`, after which the
    /// engine awaits the answer with the two callbacks. Returns the text of
    /// the login request to send.
    pub fn send_login_req(&mut self, username: &str, on_success: F, on_failed: F) -> (res:
        Result<String, String>)
        ensures
            final(self).sender() == old(self).sender(),
            final(self).chat_callback() == old(self).chat_callback(),
            final(self).status() == status_after_login_req(old(self).status(), on_success, on_failed),
            old(self).status() is NotLoggedOn ==> {
                &&& res matches Ok(s) && s@ == client_message_json(
                    ClientMessageView::LoginRequest { username: username@ },
                )
            },
            !(old(self).status() is NotLoggedOn) ==> (res matches Err(e) && e@
                == invalid_login_status_error()),
    {
        match self.login_status {
            LoginStatus::NotLoggedOn => {},
            _ => {
                return Err(String::from_str("Invalid login status"));
            },
        }
        self.login_status = LoginStatus::AwaitingResponse { on_success, on_failed };
        self.send_message(ClientMessage::LoginRequest { username: String::from_str(username) })
    }

    /// The text of a chat message to `recipient`.
    pub fn send_chat_msg(&self, recipient: &str, msg: &str) -> (res: Result<String, String>)
        ensures
            res matches Ok(s) && s@ == client_message_json(
                ClientMessageView::SendChatMessage { recipient: recipient@, message: msg@ },
            ),
    {
        self.send_message(
            ClientMessage::SendChatMessage {
                recipient: String::from_str(recipient),
                message: String::from_str(msg),
            },
        )
    }

    /// The text of a heartbeat.
    pub fn send_heartbeat(&self) -> (res: Result<String, String>)
        ensures
            res matches Ok(s) && s@ == client_message_json(ClientMessageView::HeartBeat),
    {
        self.send_message(ClientMessage::HeartBeat)
    }

    /// Takes in a message from the server. An answer to a login ends the
    /// wait (the status goes back to `NotLoggedOn`) and hands out the callback
    /// for that answer; a chat message goes to the chat callback if there is
    /// one; everything else is ignored.
    pub fn recv_server_msg(&mut self, msg: ServerMessage) -> (res: Reaction<F>)
        ensures
            final(self).sender() == old(self).sender(),
            final(self).chat_callback() == old(self).chat_callback(),
            match msg {
                ServerMessage::LoginSuccess => final(self).status() is NotLoggedOn && res
                    == login_reply_reaction(old(self).status(), true),
                ServerMessage::LoginFailed { .. } => final(self).status() is NotLoggedOn && res
                    == login_reply_reaction(old(self).status(), false),
                ServerMessage::RecvChatMessage { from, message } => {
                    &&& final(self).status() == old(self).status()
                    &&& if old(self).chat_callback() is Some {
                        res == (Reaction::<F>::Chat { from, message })
                    } else {
                        res is Nothing
                    }
                },
                _ => final(self).status() == old(self).status() && res is Nothing,
            },
    {
        match msg {
            ServerMessage::LoginSuccess => {
                let mut status = LoginStatus::NotLoggedOn;
                std::mem::swap(&mut status, &mut self.login_status);
                match status {
                    LoginStatus::AwaitingResponse { on_success, .. } => Reaction::Schedule(
                        on_success,
                    ),
                    _ => Reaction::InvalidLoginStatus,
                }
            },
            ServerMessage::LoginFailed { .. } => {
                let mut status = LoginStatus::NotLoggedOn;
                std::mem::swap(&mut status, &mut self.login_status);
                match status {
                    LoginStatus::AwaitingResponse { on_failed, .. } => Reaction::Schedule(
                        on_failed,
                    ),
                    _ => Reaction::InvalidLoginStatus,
                }
            },
            ServerMessage::RecvChatMessage { from, message } => {
                if self.on_recv_chat_msg.is_some() {
                    Reaction::Chat { from, message }
                } else {
                    Reaction::Nothing
                }
            },
            _ => Reaction::Nothing,
        }
    }
}

/// The login handshake: from `NotLoggedOn`, a login request makes the
/// engine await the answer, and the answer hands out the callback for it
/// (`on_success` or `on_failed`) and returns the engine to `NotLoggedOn`,
/// where a new login can start. While an answer is awaited, another login
/// request is refused and changes nothing.
pub proof fn lemma_login_handshake<F>(on_success: F, on_failed: F, other_success: F, other_failed: F)
    ensures
        login_reply_reaction(
            status_after_login_req(LoginStatus::NotLoggedOn, on_success, on_failed),
            true,
        ) == Reaction::Schedule(on_success),
        login_reply_reaction(
            status_after_login_req(LoginStatus::NotLoggedOn, on_success, on_failed),
            false,
        ) == Reaction::Schedule(on_failed),
        status_after_login_req(
            status_after_login_req(LoginStatus::NotLoggedOn, on_success, on_failed),
            other_success,
            other_failed,
        ) == status_after_login_req(LoginStatus::NotLoggedOn, on_success, on_failed),
        login_reply_reaction(LoginStatus::<F>::NotLoggedOn, true) is InvalidLoginStatus,
{
}

} // verus!
