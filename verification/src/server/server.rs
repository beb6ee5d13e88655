//! The server's decisions: who logs in, and which messages go to whom in
//! answer to a message from a client.
use vstd::prelude::*;
use vstd::string::*;

use crate::messaging::{ClientMessage, ServerMessage, ServerMessageView};
use crate::plugins::tick_tack_toe::{
    lemma_join_seat, seat_of, Cell, CELL_COUNT, seat_after_join, server_after_join, server_cells_after, state_json, Message,
    ServerView,
};
use crate::plugins::{PluginType, ServerPlugin};
use crate::server::game_states::GameStates;
use crate::server::users::{LoginResult, LogoutResult, Users};

verus! {

/// The server's state: its users and its games. `Tx` is the channel on which
/// the server sends to a logged-in user.
pub struct Server<Tx> {
    users: Users<Tx>,
    game_states: GameStates,
}

/// A message to send: the recipient's name, a clone of the recipient's
/// channel, and the message.
pub type Delivery<Tx> = (String, Tx, ServerMessage);

/// The deliveries `d` are the messages `expected` (recipient and message, in
/// order), each on a clone of its recipient's channel.
pub open spec fn delivers<Tx: Clone>(
    d: Seq<Delivery<Tx>>,
    logged_in: Map<Seq<char>, Tx>,
    expected: Seq<(Seq<char>, ServerMessageView)>,
) -> bool {
    &&& d.len() == expected.len()
    &&& forall|i: int|
        0 <= i < d.len() ==> {
            &&& (#[trigger] d[i]).0@ == expected[i].0
            &&& d[i].2@ == expected[i].1
            &&& logged_in.contains_key(expected[i].0)
            &&& cloned(logged_in[expected[i].0], d[i].1)
        }
}

/// The message `m` to every logged-in user, in the order of login.
pub open spec fn to_everyone<Tx>(sessions: Seq<(Seq<char>, Tx)>, m: ServerMessageView) -> Seq<
    (Seq<char>, ServerMessageView),
> {
    sessions.map_values(|s: (Seq<char>, Tx)| (s.0, m))
}

/// The chat message from `from` to those of `to` that are logged in, in the
/// order of `to`.
pub open spec fn chat_deliveries<Tx>(
    logged_in: Map<Seq<char>, Tx>,
    to: Seq<Seq<char>>,
    from: Seq<char>,
    message: Seq<char>,
) -> Seq<(Seq<char>, ServerMessageView)>
    decreases to.len(),
{
    if to.len() == 0 {
        Seq::empty()
    } else {
        let rest = chat_deliveries(logged_in, to.drop_last(), from, message);
        if logged_in.contains_key(to.last()) {
            rest.push((to.last(), ServerMessageView::RecvChatMessage { from, message }))
        } else {
            rest
        }
    }
}

/// Why the first message of a connection logged no one in.
#[derive(Debug)]
pub enum LoginRefusal {
    /// The first message was not a login request.
    NotALoginRequest,
    /// The login was refused.
    Refused(LoginResult),
}

/// A game that nobody has joined, with an empty board.
pub open spec fn fresh_view() -> ServerView {
    ServerView {
        players: Seq::empty(),
        cells: crate::plugins::tick_tack_toe::empty_board(),
    }
}

/// What the server does with `msg` from `username`: the games afterwards, and
/// the messages it sends. `decoded` is what the game message of a
/// `RequestGameUpdate` decoded to.
///
/// - A new game is hosted under the next id and announced to everyone.
/// - Entering a game takes the user in where there is room, and sends the
///   user the game's state, if the game exists and the user is logged in.
/// - A move that decoded changes the game and goes to everyone; one that did
///   not decode changes nothing.
/// - A chat message goes to its recipient and back to its sender, to those of
///   them that are logged in.
pub open spec fn recv_effect<Tx>(
    games: Map<u64, (PluginType, ServerView)>,
    next_id: nat,
    sessions: Seq<(Seq<char>, Tx)>,
    logged_in: Map<Seq<char>, Tx>,
    username: Seq<char>,
    msg: ClientMessage,
    decoded: Result<Message, String>,
) -> (Map<u64, (PluginType, ServerView)>, nat, Seq<(Seq<char>, ServerMessageView)>) {
    match msg {
        ClientMessage::RequestNewGame(plugin_type) => (
            games.insert(next_id as u64, (plugin_type, fresh_view())),
            next_id + 1,
            to_everyone(
                sessions,
                ServerMessageView::NewGameCreated { game_id: next_id as u64, plugin_type },
            ),
        ),
        ClientMessage::RequestEnterGame { game_id } => if games.contains_key(game_id) {
            let (plugin_type, v) = games[game_id];
            (
                games.insert(game_id, (plugin_type, server_after_join(v, username))),
                next_id,
                match seat_after_join(v, username) {
                    Some(c) => if logged_in.contains_key(username) {
                        seq![
                            (
                                username,
                                ServerMessageView::GameEntered {
                                    game_id,
                                    plugin_type,
                                    game_state_msg: state_json(c, v.cells),
                                },
                            ),
                        ]
                    } else {
                        Seq::empty()
                    },
                    None => Seq::empty(),
                },
            )
        } else {
            (games, next_id, Seq::empty())
        },
        ClientMessage::RequestGameUpdate { game_id, msg } => if games.contains_key(game_id) {
            let (plugin_type, v) = games[game_id];
            match decoded {
                Ok(m) => (
                    games.insert(
                        game_id,
                        (
                            plugin_type,
                            ServerView { players: v.players, cells: server_cells_after(v.cells, m) },
                        ),
                    ),
                    next_id,
                    to_everyone(sessions, ServerMessageView::GameUpdate { game_id, msg: msg@ }),
                ),
                Err(_) => (games, next_id, Seq::empty()),
            }
        } else {
            (games, next_id, Seq::empty())
        },
        ClientMessage::SendChatMessage { recipient, message } => (
            games,
            next_id,
            chat_deliveries(logged_in, seq![recipient@, username], username, message@),
        ),
        _ => (games, next_id, Seq::empty()),
    }
}

impl<Tx: Clone> Server<Tx> {
    /// The users.
    pub closed spec fn users(&self) -> Users<Tx> {
        self.users
    }

    /// The games.
    pub closed spec fn game_states(&self) -> GameStates {
        self.game_states
    }

    /// The users and games are well formed.
    pub open spec fn wf(&self) -> bool {
        self.users().wf() && self.game_states().wf()
    }

    /// No one logged in and no games.
    pub fn new() -> (res: Self)
        ensures
            res.wf(),
            res.users().logged_in() == Map::<Seq<char>, Tx>::empty(),
            res.users().registered() == crate::server::users::registered_names(),
            res.game_states().games() == Map::<u64, (PluginType, ServerView)>::empty(),
            res.game_states().next_id() == 0,
    {
        let res = Server { users: Users::new(), game_states: GameStates::new() };
        proof {
            res.game_states.lemma_ids();
            assert(res.game_states.games() =~= Map::<u64, (PluginType, ServerView)>::empty());
        }
        res
    }

    /// Logs `username` in with the channel `tx`.
    pub fn login_user(&mut self, username: &str, tx: Tx) -> (res: Result<(), LoginResult>)
        requires
            old(self).wf(),
        ensures
            final(self).wf(),
            final(self).game_states() == old(self).game_states(),
            final(self).users().registered() == old(self).users().registered(),
            match crate::server::users::login_outcome(
                old(self).users().registered(),
                old(self).users().logged_in(),
                username@,
            ) {
                LoginResult::Success => res is Ok && final(self).users().logged_in() == old(self).users().logged_in().insert(username@, tx),
                r => res == Err::<(), LoginResult>(r) && final(self).users().logged_in() == old(self).users().logged_in(),
            },
    {
        let result = self.users.login_user(username, tx);
        if result == LoginResult::Success {
            Ok(())
        } else {
            Err(result)
        }
    }

    /// Takes the first message of a connection, which must be a login
    /// request, and logs its user in with the channel `tx`; returns the
    /// user's name.
    pub fn login_sequence(&mut self, msg: ClientMessage, tx: Tx) -> (res: Result<String, LoginRefusal>)
        requires
            old(self).wf(),
        ensures
            final(self).wf(),
            final(self).game_states() == old(self).game_states(),
            final(self).users().registered() == old(self).users().registered(),
            match msg {
                ClientMessage::LoginRequest { username } => match crate::server::users::login_outcome(
                    old(self).users().registered(),
                    old(self).users().logged_in(),
                    username@,
                ) {
                    LoginResult::Success => (res matches Ok(u) && u@ == username@) && final(self).users().logged_in() == old(self).users().logged_in().insert(username@, tx),
                    r => (res matches Err(LoginRefusal::Refused(r2)) && r2 == r) && final(self).users().logged_in() == old(self).users().logged_in(),
                },
                _ => (res matches Err(LoginRefusal::NotALoginRequest)) && final(self).users().logged_in()
                    == old(self).users().logged_in(),
            },
    {
        match msg {
            ClientMessage::LoginRequest { username } => match self.login_user(username.as_str(), tx) {
                Ok(()) => Ok(username),
                Err(r) => Err(LoginRefusal::Refused(r)),
            },
            _ => Err(LoginRefusal::NotALoginRequest),
        }
    }

    /// Logs `username` out; whether it was logged in.
    pub fn logout_user(&mut self, username: &str) -> (res: bool)
        requires
            old(self).wf(),
        ensures
            final(self).wf(),
            final(self).game_states() == old(self).game_states(),
            final(self).users().registered() == old(self).users().registered(),
            res == (crate::server::users::logout_outcome(
                old(self).users().registered(),
                old(self).users().logged_in(),
                username@,
            ) == LogoutResult::Success),
            final(self).users().logged_in() == old(self).users().logged_in().remove(username@),
    {
        let result = self.users.logout_user(username);
        proof {
            if result != LogoutResult::Success {
                assert(old(self).users().logged_in().remove(username@) =~= old(self).users().logged_in());
            }
        }
        result == LogoutResult::Success
    }

    /// The next id a game will get.
    pub open spec fn next_game_id(&self) -> nat {
        self.game_states().next_id()
    }

    /// The id that the next game will get.
    pub fn upcoming_game_id(&self) -> (res: u64)
        ensures
            res == self.next_game_id(),
    {
        self.game_states.upcoming_id()
    }

    /// Acts on `msg` from the logged-in `username`: changes the games as
    /// [`recv_effect`] says and returns the messages to send.
    pub fn recv_msg(&mut self, username: &str, msg: ClientMessage, decoded: Result<Message, String>) -> (res: Vec<Delivery<Tx>>)
        requires
            old(self).wf(),
            msg is RequestNewGame ==> old(self).next_game_id() < u64::MAX,
        ensures
            final(self).wf(),
            final(self).users() == old(self).users(),
            ({
                let (games, next_id, expected) = recv_effect(
                    old(self).game_states().games(),
                    old(self).next_game_id(),
                    old(self).users().sessions(),
                    old(self).users().logged_in(),
                    username@,
                    msg,
                    decoded,
                );
                &&& final(self).game_states().games() == games
                &&& final(self).next_game_id() == next_id
                &&& delivers(res@, old(self).users().logged_in(), expected)
            }),
    {
        proof {
            self.game_states.lemma_ids();
            self.users.lemma_sessions();
        }
        match msg {
            ClientMessage::HeartBeat => Vec::new(),
            ClientMessage::LoginRequest { .. } => Vec::new(),
            ClientMessage::RequestNewGame(plugin_type) => {
                let new_game_id = self.game_states.new_game(plugin_type);
                proof {
                    assert(self.game_states.entries().last().2 == fresh_view());
                }
                let msg = ServerMessage::NewGameCreated { game_id: new_game_id, plugin_type };
                self.broadcast(&msg)
            },
            ClientMessage::RequestEnterGame { game_id } => {
                let entered = match self.game_states.get_game_mut(game_id) {
                    Some((plugin_type, game)) => Some((plugin_type, game.get_state_msg_for_user(username))),
                    None => None,
                };
                let mut res: Vec<Delivery<Tx>> = Vec::new();
                if let Some((plugin_type, Ok(state_msg))) = entered {
                    if let Some(tx) = self.users.get_user_tx(username) {
                        res.push(
                            (
                                String::from_str(username),
                                tx,
                                ServerMessage::GameEntered {
                                    game_id,
                                    plugin_type,
                                    game_state_msg: state_msg,
                                },
                            ),
                        );
                    }
                }
                res
            },
            ClientMessage::RequestGameUpdate { game_id, msg } => {
                let result = match self.game_states.get_game_mut(game_id) {
                    Some((_, game)) => Some(game.recv_msg(msg.as_str(), decoded)),
                    None => None,
                };
                match result {
                    Some(Ok(_)) => self.broadcast(&ServerMessage::GameUpdate { game_id, msg }),
                    _ => Vec::new(),
                }
            },
            ClientMessage::SendChatMessage { recipient, message } => {
                proof {
                    let to = seq![recipient@, username@];
                    assert(to.drop_last() =~= seq![recipient@]);
                    assert(seq![recipient@].drop_last() =~= Seq::<Seq<char>>::empty());
                    let li = self.users().logged_in();
                    let m = ServerMessageView::RecvChatMessage { from: username@, message: message@ };
                    let r1 = chat_deliveries(li, seq![recipient@], username@, message@);
                    assert(chat_deliveries(li, Seq::<Seq<char>>::empty(), username@, message@)
                        == Seq::<(Seq<char>, ServerMessageView)>::empty());
                    assert(r1 == if li.contains_key(recipient@) {
                        seq![(recipient@, m)]
                    } else {
                        Seq::empty()
                    }) by {
                        if li.contains_key(recipient@) {
                            assert(Seq::<(Seq<char>, ServerMessageView)>::empty().push(
                                (recipient@, m),
                            ) =~= seq![(recipient@, m)]);
                        }
                    }
                    assert(chat_deliveries(li, to, username@, message@) == if li.contains_key(
                        username@,
                    ) {
                        r1.push((username@, m))
                    } else {
                        r1
                    });
                }
                let mut res: Vec<Delivery<Tx>> = Vec::new();
                if let Some(tx) = self.users.get_user_tx(recipient.as_str()) {
                    res.push(
                        (
                            recipient.clone(),
                            tx,
                            ServerMessage::RecvChatMessage {
                                from: String::from_str(username),
                                message: message.clone(),
                            },
                        ),
                    );
                }
                if let Some(tx) = self.users.get_user_tx(username) {
                    res.push(
                        (
                            String::from_str(username),
                            tx,
                            ServerMessage::RecvChatMessage {
                                from: String::from_str(username),
                                message: message.clone(),
                            },
                        ),
                    );
                }
                res
            },
        }
    }

    fn broadcast(&self, msg: &ServerMessage) -> (res: Vec<Delivery<Tx>>)
        requires
            self.wf(),
        ensures
            delivers(res@, self.users().logged_in(), to_everyone(self.users().sessions(), msg@)),
    {
        let mut txs = self.users.get_all_users_tx();
        proof {
            self.users.lemma_sessions();
        }
        let ghost all = txs@;
        let ghost sessions = self.users().sessions();
        let ghost logged_in = self.users().logged_in();
        let ghost expected = to_everyone(sessions, msg@);
        let mut res: Vec<Delivery<Tx>> = Vec::new();
        let mut i: usize = 0;
        while txs.len() > 0
            invariant
                all.len() == sessions.len(),
                all.len() <= usize::MAX,
                expected == to_everyone(sessions, msg@),
                i <= all.len(),
                txs@ == all.skip(i as int),
                forall|j: int|
                    0 <= j < all.len() ==> (#[trigger] all[j]).0@ == sessions[j].0 && cloned(
                        sessions[j].1,
                        all[j].1,
                    ),
                forall|j: int|
                    0 <= j < sessions.len() ==> #[trigger] logged_in.contains_key(sessions[j].0)
                        && logged_in[sessions[j].0] == sessions[j].1,
                res.len() == i,
                forall|j: int|
                    0 <= j < i ==> {
                        &&& (#[trigger] res[j]).0@ == expected[j].0
                        &&& res[j].2@ == expected[j].1
                        &&& logged_in.contains_key(expected[j].0)
                        &&& cloned(logged_in[expected[j].0], res[j].1)
                    },
            decreases txs.len(),
        {
            let (name, tx) = txs.remove(0);
            proof {
                assert(all[i as int] == (name, tx));
                assert(txs@ =~= all.skip(i + 1));
                assert(logged_in.contains_key(sessions[i as int].0));
            }
            res.push((name, tx, msg.clone()));
            i = i + 1;
        }
        proof {
            assert(all.skip(i as int).len() == 0);
        }
        res
    }
}

/// A chat message goes only to its recipient and back to its sender, to each
/// of them that is logged in, in that order, always as a message from the
/// sender.
pub proof fn lemma_chat_deliveries<Tx>(
    logged_in: Map<Seq<char>, Tx>,
    recipient: Seq<char>,
    sender: Seq<char>,
    message: Seq<char>,
)
    ensures
        ({
            let d = chat_deliveries(logged_in, seq![recipient, sender], sender, message);
            let m = ServerMessageView::RecvChatMessage { from: sender, message };
            &&& d.len() <= 2
            &&& forall|i: int|
                0 <= i < d.len() ==> ((#[trigger] d[i]).0 == recipient || d[i].0 == sender)
                    && logged_in.contains_key(d[i].0) && d[i].1 == m
            &&& logged_in.contains_key(recipient) && logged_in.contains_key(sender) ==> d
                == seq![(recipient, m), (sender, m)]
            &&& !logged_in.contains_key(recipient) && !logged_in.contains_key(sender) ==> d.len()
                == 0
        }),
{
    let to = seq![recipient, sender];
    assert(to.drop_last() =~= seq![recipient]);
    assert(seq![recipient].drop_last() =~= Seq::<Seq<char>>::empty());
    let m = ServerMessageView::RecvChatMessage { from: sender, message };
    let r1 = chat_deliveries(logged_in, seq![recipient], sender, message);
    assert(chat_deliveries(logged_in, Seq::<Seq<char>>::empty(), sender, message) == Seq::<
        (Seq<char>, ServerMessageView),
    >::empty());
    if logged_in.contains_key(recipient) {
        assert(r1 =~= seq![(recipient, m)]);
    } else {
        assert(r1 =~= Seq::<(Seq<char>, ServerMessageView)>::empty());
    }
    let d = chat_deliveries(logged_in, to, sender, message);
    if logged_in.contains_key(recipient) && logged_in.contains_key(sender) {
        assert(d =~= seq![(recipient, m), (sender, m)]);
    }
}

/// A new game is announced to every logged-in user, each once, in the order
/// of login.
pub proof fn lemma_new_game_announced<Tx>(sessions: Seq<(Seq<char>, Tx)>, m: ServerMessageView)
    ensures
        to_everyone(sessions, m).len() == sessions.len(),
        forall|i: int|
            0 <= i < sessions.len() ==> #[trigger] to_everyone(sessions, m)[i] == (sessions[i].0, m),
{
}

/// A move that decoded, in a hosted game, goes to every logged-in user, the
/// mover and the opponent alike: one `GameUpdate` with the move's text for
/// each session, in the order of login.
pub proof fn lemma_move_relayed_to_everyone<Tx>(
    games: Map<u64, (PluginType, ServerView)>,
    next_id: nat,
    sessions: Seq<(Seq<char>, Tx)>,
    logged_in: Map<Seq<char>, Tx>,
    username: Seq<char>,
    game_id: u64,
    msg: String,
    m: Message,
)
    requires
        games.contains_key(game_id),
    ensures
        ({
            let d = recv_effect(
                games,
                next_id,
                sessions,
                logged_in,
                username,
                ClientMessage::RequestGameUpdate { game_id, msg },
                Ok(m),
            ).2;
            &&& d.len() == sessions.len()
            &&& forall|i: int|
                0 <= i < sessions.len() ==> (#[trigger] d[i]).0 == sessions[i].0 && d[i].1
                    == ServerMessageView::GameUpdate { game_id, msg: msg@ }
        }),
{
    let d = recv_effect(
        games,
        next_id,
        sessions,
        logged_in,
        username,
        ClientMessage::RequestGameUpdate { game_id, msg },
        Ok(m),
    ).2;
    let u = ServerMessageView::GameUpdate { game_id, msg: msg@ };
    assert(d == to_everyone(sessions, u));
    assert(d.len() == sessions.len());
    assert forall|i: int| 0 <= i < sessions.len() implies (#[trigger] d[i]).0 == sessions[i].0
        && d[i].1 == u by {
        assert(to_everyone(sessions, u)[i] == (sessions[i].0, u));
    }
}

/// A move that decoded, in a hosted game, is applied to the hosted board: a
/// move on the board puts its piece into its cell and leaves the other cells,
/// the players, the game's kind, the other games and the next id as they
/// were.
pub proof fn lemma_move_applied<Tx>(
    games: Map<u64, (PluginType, ServerView)>,
    next_id: nat,
    sessions: Seq<(Seq<char>, Tx)>,
    logged_in: Map<Seq<char>, Tx>,
    username: Seq<char>,
    game_id: u64,
    msg: String,
    idx: usize,
    content: Cell,
)
    requires
        games.contains_key(game_id),
        games[game_id].1.cells.len() == CELL_COUNT,
        idx < CELL_COUNT,
    ensures
        ({
            let (g2, n2, d) = recv_effect(
                games,
                next_id,
                sessions,
                logged_in,
                username,
                ClientMessage::RequestGameUpdate { game_id, msg },
                Ok(Message::FillCell { idx, content }),
            );
            &&& n2 == next_id
            &&& g2.contains_key(game_id)
            &&& g2[game_id].0 == games[game_id].0
            &&& g2[game_id].1.players == games[game_id].1.players
            &&& g2[game_id].1.cells.len() == CELL_COUNT
            &&& g2[game_id].1.cells[idx as int] == content
            &&& forall|j: int|
                0 <= j < CELL_COUNT && j != idx ==> #[trigger] g2[game_id].1.cells[j]
                    == games[game_id].1.cells[j]
            &&& forall|other: u64|
                other != game_id ==> (#[trigger] g2.contains_key(other) == games.contains_key(other))
                    && (games.contains_key(other) ==> g2[other] == games[other])
        }),
{
}

/// Entering a hosted game, by a logged-in user: the board and the game's
/// kind stay; whenever the user plays a piece in the game afterwards (seated
/// now or before), exactly one `GameEntered` with that piece and the board
/// goes to the user, and otherwise nothing goes out. A user already seated
/// keeps the piece and changes nothing, so coming back to a game gives its
/// state again.
pub proof fn lemma_enter_sends_state<Tx>(
    games: Map<u64, (PluginType, ServerView)>,
    next_id: nat,
    sessions: Seq<(Seq<char>, Tx)>,
    logged_in: Map<Seq<char>, Tx>,
    username: Seq<char>,
    game_id: u64,
    decoded: Result<Message, String>,
)
    requires
        games.contains_key(game_id),
        logged_in.contains_key(username),
    ensures
        ({
            let (g2, n2, d) = recv_effect(
                games,
                next_id,
                sessions,
                logged_in,
                username,
                ClientMessage::RequestEnterGame { game_id },
                decoded,
            );
            let (pt, v) = games[game_id];
            &&& n2 == next_id
            &&& g2.contains_key(game_id)
            &&& g2[game_id].0 == pt
            &&& g2[game_id].1.cells == v.cells
            &&& match seat_of(g2[game_id].1.players, username) {
                Some(c) => d == seq![
                    (
                        username,
                        ServerMessageView::GameEntered {
                            game_id,
                            plugin_type: pt,
                            game_state_msg: crate::plugins::tick_tack_toe::state_json(c, v.cells),
                        },
                    ),
                ],
                None => d.len() == 0,
            }
            &&& seat_of(v.players, username) is Some ==> g2 == games && seat_of(
                g2[game_id].1.players,
                username,
            ) == seat_of(v.players, username)
        }),
{
    let (pt, v) = games[game_id];
    lemma_join_seat(v, username);
    if seat_of(v.players, username) is Some {
        assert(games.insert(game_id, (pt, server_after_join(v, username))) =~= games);
    }
}

/// A move and then an entry: after a move on the board of a hosted game, a
/// logged-in player who enters the game receives the board with the move in
/// it.
pub proof fn lemma_enter_after_move<Tx>(
    games: Map<u64, (PluginType, ServerView)>,
    next_id: nat,
    sessions: Seq<(Seq<char>, Tx)>,
    logged_in: Map<Seq<char>, Tx>,
    mover: Seq<char>,
    player: Seq<char>,
    game_id: u64,
    msg: String,
    idx: usize,
    content: Cell,
    decoded: Result<Message, String>,
)
    requires
        games.contains_key(game_id),
        games[game_id].1.cells.len() == CELL_COUNT,
        idx < CELL_COUNT,
        logged_in.contains_key(player),
    ensures
        ({
            let (g2, n2, _) = recv_effect(
                games,
                next_id,
                sessions,
                logged_in,
                mover,
                ClientMessage::RequestGameUpdate { game_id, msg },
                Ok(Message::FillCell { idx, content }),
            );
            let (g3, _, d) = recv_effect(
                g2,
                n2,
                sessions,
                logged_in,
                player,
                ClientMessage::RequestEnterGame { game_id },
                decoded,
            );
            seat_of(g3[game_id].1.players, player) matches Some(c) ==> d.len() == 1
                && d[0].0 == player && exists|cells: Seq<Cell>|
                cells.len() == CELL_COUNT && cells[idx as int] == content && d[0].1
                    == (ServerMessageView::GameEntered {
                    game_id,
                    plugin_type: games[game_id].0,
                    game_state_msg: crate::plugins::tick_tack_toe::state_json(c, cells),
                })
        }),
{
    lemma_move_applied(games, next_id, sessions, logged_in, mover, game_id, msg, idx, content);
    let (g2, n2, _) = recv_effect(
        games,
        next_id,
        sessions,
        logged_in,
        mover,
        ClientMessage::RequestGameUpdate { game_id, msg },
        Ok(Message::FillCell { idx, content }),
    );
    lemma_enter_sends_state(g2, n2, sessions, logged_in, player, game_id, decoded);
}

} // verus!
