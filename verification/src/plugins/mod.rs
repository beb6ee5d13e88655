//! The games that the server can host, and what each side keeps of a game.
use vstd::prelude::*;
use vstd::string::*;

pub mod tick_tack_toe;

verus! {

/// Where a game stands.
pub enum EvaluateResult {
    Running,
    WinningEnd { username: String },
    TieEnd,
}

/// What the server needs from a game.
///
/// A game takes its messages as text; the decoding of that text into the
/// game's own `Message` type is handed in beside it.
pub trait ServerPlugin {
    /// The game's own messages.
    type Message;

    /// Whether `username` plays in this game.
    fn has_user(&self, username: &str) -> bool;

    /// Takes in the text `msg` of a move, decoded as `decoded`; gives back the
    /// text to pass on to the players, or an error.
    fn recv_msg(&mut self, msg: &str, decoded: Result<Self::Message, String>) -> Result<
        String,
        String,
    >;

    /// The text of the game's state as `username` sees it, taking the user
    /// into the game if there is room.
    fn get_state_msg_for_user(&mut self, username: &str) -> Result<String, String>;

    /// Where the game stands.
    fn evaluate_state(&self) -> EvaluateResult;
}

/// The kinds of game.
#[derive(Clone, Copy, Debug, PartialEq, Eq, Structural)]
pub enum PluginType {
    TickTackToe,
}

/// All kinds of game, in the order in which a player cycles through them.
pub open spec fn plugin_types() -> Seq<PluginType> {
    seq![PluginType::TickTackToe]
}

/// The position of a kind of game in [`plugin_types`].
pub open spec fn plugin_index(p: PluginType) -> int {
    match p {
        PluginType::TickTackToe => 0,
    }
}

/// The name of a kind of game.
pub open spec fn plugin_name(p: PluginType) -> Seq<char> {
    match p {
        PluginType::TickTackToe => "TickTackToe"@,
    }
}

/// The JSON text of a kind of game: its name in quotes.
pub open spec fn plugin_json(p: PluginType) -> Seq<char> {
    match p {
        PluginType::TickTackToe => "\"TickTackToe\""@,
    }
}

/// Appends the JSON text of a kind of game.
pub fn append_plugin_json(s: &mut String, p: PluginType)
    ensures
        final(s)@ == old(s)@ + plugin_json(p),
{
    match p {
        PluginType::TickTackToe => s.append("\"TickTackToe\""),
    }
}

/// The kind after `p`, wrapping round at the end.
pub open spec fn next_plugin(p: PluginType) -> PluginType {
    plugin_types()[(plugin_index(p) + 1) % (plugin_types().len() as int)]
}

/// The kind before `p`, wrapping round at the start.
pub open spec fn prev_plugin(p: PluginType) -> PluginType {
    let i = plugin_index(p);
    if i > 0 {
        plugin_types()[i - 1]
    } else {
        plugin_types()[plugin_types().len() - 1]
    }
}

/// Every kind of game stands in [`plugin_types`] once, at its index.
pub proof fn lemma_plugin_index(p: PluginType)
    ensures
        0 <= plugin_index(p) < plugin_types().len(),
        plugin_types()[plugin_index(p)] == p,
        forall|i: int| 0 <= i < plugin_types().len() ==> plugin_index(#[trigger] plugin_types()[i]) == i,
{
}

/// Going one kind back and then one forward, or forward and then back,
/// returns to where one started.
pub proof fn lemma_next_prev_inverse(p: PluginType)
    ensures
        next_plugin(prev_plugin(p)) == p,
        prev_plugin(next_plugin(p)) == p,
{
    lemma_plugin_index(p);
    lemma_plugin_index(prev_plugin(p));
    lemma_plugin_index(next_plugin(p));
}

/// The server's game, of whichever kind.
pub enum ServerState {
    TickTackToe(tick_tack_toe::Server),
}

impl View for ServerState {
    type V = tick_tack_toe::ServerView;

    open spec fn view(&self) -> tick_tack_toe::ServerView {
        match self {
            ServerState::TickTackToe(s) => s@,
        }
    }
}

impl ServerPlugin for ServerState {
    type Message = tick_tack_toe::Message;

    fn has_user(&self, username: &str) -> (res: bool)
        ensures
            res == (tick_tack_toe::seat_of(self@.players, username@) is Some),
    {
        match self {
            ServerState::TickTackToe(s) => s.has_user(username),
        }
    }

    fn recv_msg(&mut self, msg: &str, decoded: Result<tick_tack_toe::Message, String>) -> (res:
        Result<String, String>)
        ensures
            match decoded {
                Ok(m) => res matches Ok(s) && s@ == msg@ && final(self)@ == (
                tick_tack_toe::ServerView {
                    players: old(self)@.players,
                    cells: tick_tack_toe::server_cells_after(old(self)@.cells, m),
                }),
                Err(e) => res matches Err(r) && r@ == tick_tack_toe::decode_error(e@) && final(self)@ == old(self)@,
            },
    {
        match self {
            ServerState::TickTackToe(s) => s.recv_msg(msg, decoded),
        }
    }

    fn get_state_msg_for_user(&mut self, username: &str) -> (res: Result<String, String>)
        ensures
            final(self)@ == tick_tack_toe::server_after_join(old(self)@, username@),
            match tick_tack_toe::seat_after_join(old(self)@, username@) {
                Some(c) => res matches Ok(s) && s@ == tick_tack_toe::state_json(
                    c,
                    old(self)@.cells,
                ),
                None => res matches Err(e) && e@ == tick_tack_toe::game_full_error(),
            },
    {
        match self {
            ServerState::TickTackToe(s) => s.get_state_msg_for_user(username),
        }
    }

    fn evaluate_state(&self) -> (res: EvaluateResult)
        ensures
            res is Running,
    {
        match self {
            ServerState::TickTackToe(s) => s.evaluate_state(),
        }
    }
}

impl PluginType {
    /// A fresh server-side game of this kind.
    pub fn new_server(self) -> (res: ServerState)
        ensures
            res@.players == Seq::<(Seq<char>, tick_tack_toe::Cell)>::empty(),
            res@.cells == tick_tack_toe::empty_board(),
    {
        match self {
            PluginType::TickTackToe => ServerState::TickTackToe(tick_tack_toe::new_server()),
        }
    }

    /// A fresh client-side game of this kind, before the server said which
    /// piece the player has.
    pub fn new_client(self) -> (res: ClientState)
        ensures
            res@.player_cell == tick_tack_toe::Cell::Empty,
            res@.cells == tick_tack_toe::empty_board(),
    {
        match self {
            PluginType::TickTackToe => ClientState::TickTackToe(
                tick_tack_toe::ClientState::new(tick_tack_toe::Cell::Empty),
            ),
        }
    }

    /// The name of this kind of game.
    pub fn to_string(self) -> (res: &'static str)
        ensures
            res@ == plugin_name(self),
    {
        match self {
            PluginType::TickTackToe => "TickTackToe",
        }
    }

    /// All kinds of game.
    pub fn get_all() -> (res: &'static [PluginType])
        ensures
            res@ == plugin_types(),
    {
        let v: &'static [PluginType] = &[PluginType::TickTackToe];
        assert(v@ =~= plugin_types());
        v
    }

    fn position(self, all: &[PluginType]) -> (res: usize)
        requires
            all@ == plugin_types(),
        ensures
            res == plugin_index(self),
    {
        proof {
            lemma_plugin_index(self);
        }
        let mut i: usize = 0;
        while i < all.len()
            invariant
                all@ == plugin_types(),
                0 <= plugin_index(self) < all@.len(),
                all@[plugin_index(self)] == self,
                forall|j: int| 0 <= j < i ==> all@[j] != self,
                i <= all.len(),
            decreases all.len() - i,
        {
            if all[i] == self {
                proof {
                    lemma_plugin_index(all@[i as int]);
                }
                return i;
            }
            i = i + 1;
        }
        proof {
            assert(all@[plugin_index(self)] == self);
        }
        0
    }

    /// The next kind of game, wrapping round after the last.
    pub fn next(self) -> (res: Self)
        ensures
            res == next_plugin(self),
    {
        let all = Self::get_all();
        let idx = self.position(&all);
        all[(idx + 1) % all.len()]
    }

    /// The previous kind of game, wrapping round before the first.
    pub fn prev(self) -> (res: Self)
        ensures
            res == prev_plugin(self),
    {
        let all = Self::get_all();
        let idx = self.position(&all);
        if idx > 0 {
            all[idx - 1]
        } else {
            all[all.len() - 1]
        }
    }
}

/// The client's game, of whichever kind.
pub enum ClientState {
    TickTackToe(tick_tack_toe::ClientState),
}

impl View for ClientState {
    type V = tick_tack_toe::ClientView;

    open spec fn view(&self) -> tick_tack_toe::ClientView {
        match self {
            ClientState::TickTackToe(s) => s@,
        }
    }
}

impl ClientState {
    /// Takes in a message from the server, decoded as `decoded`; a message that
    /// did not decode leaves the game as it was.
    pub fn recv_msg(&mut self, decoded: Result<tick_tack_toe::Message, String>)
        ensures
            match decoded {
                Ok(m) => final(self)@ == tick_tack_toe::client_after(old(self)@, m),
                Err(_) => final(self)@ == old(self)@,
            },
    {
        match self {
            ClientState::TickTackToe(ttt) => {
                let _ = ttt.recv_msg(decoded);
            },
        }
    }
}

} // verus!
