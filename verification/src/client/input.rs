//! How the terminal client reacts to keys and to messages from the server.
use vstd::prelude::*;
use vstd::string::*;

use crate::client::model::{ChatMessage, Model};
use crate::messaging::ServerMessage;
use crate::plugins::tick_tack_toe::{
    client_after, message_json, Cell, Message, CELL_COUNT, GRID_WIDTH,
};
use crate::plugins::{next_plugin, prev_plugin, ClientState, PluginType};
use crate::text::{pop_char, push_char};

verus! {

/// The keys that the client tells apart.
#[derive(Clone, Copy, Debug, PartialEq, Eq, Structural)]
pub enum KeyCode {
    Backspace,
    Enter,
    Left,
    Right,
    Up,
    Down,
    Tab,
    Esc,
    Char(char),
    /// Any other key.
    Other,
}

/// What the keys currently do.
#[derive(Clone, Copy, Debug, PartialEq, Eq, Structural)]
pub enum Mode {
    /// No mode: the letter keys pick one.
    Idle,
    Chat,
    GameListing { selected_game_id: u64 },
    PlayGame,
    NewGame(PluginType),
}

/// What the client is to do after a key.
pub enum KeyResult {
    /// Nothing to do.
    Nothing,
    Quit,
    SendChat(ChatMessage),
    SendGameMsg { game_id: u64, msg: String },
    NewGame(PluginType),
    EnterGame { game_id: u64 },
}

/// Where the player's cursor is in the game being played.
#[derive(Clone, Copy, Debug, PartialEq, Eq, Structural)]
pub enum GameInput {
    /// No game being played.
    Idle,
    TickTackToe { selected_cell: usize },
}

/// The client's input state and model.
pub struct Input {
    pub mode: Mode,
    pub game_input_state: GameInput,
    pub model: Model,
}

/// The lines of the chat input, joined with line breaks.
pub open spec fn join_lines(lines: Seq<Seq<char>>) -> Seq<char>
    decreases lines.len(),
{
    if lines.len() == 0 {
        Seq::empty()
    } else if lines.len() == 1 {
        lines[0]
    } else {
        join_lines(lines.drop_last()) + seq!['\n'] + lines.last()
    }
}

/// The characters of each string.
pub open spec fn lines_of(v: Seq<String>) -> Seq<Seq<char>> {
    v.map_values(|s: String| s@)
}

/// The index of the first `c` in `s`, if there is one.
pub open spec fn first_index(s: Seq<char>, c: char) -> Option<int>
    decreases s.len(),
{
    if s.len() == 0 {
        None
    } else if s[0] == c {
        Some(0)
    } else {
        match first_index(s.drop_first(), c) {
            Some(i) => Some(i + 1),
            None => None,
        }
    }
}

/// The error text for a chat message without a recipient.
pub open spec fn format_error() -> Seq<char> {
    "invalid message format, please use <recipient>@<message>"@
}

/// The error text for a chat message to oneself.
pub open spec fn self_message_error() -> Seq<char> {
    "Sender can't a message to themselves!"@
}

/// The cell above, wrapping from the top row to the bottom row.
pub open spec fn cursor_up(cell: nat) -> nat {
    if cell < GRID_WIDTH {
        (cell + CELL_COUNT - GRID_WIDTH) as nat
    } else {
        (cell - GRID_WIDTH) as nat
    }
}

/// The cell below, wrapping from the bottom row to the top row.
pub open spec fn cursor_down(cell: nat) -> nat {
    ((cell + GRID_WIDTH) % (CELL_COUNT as int)) as nat
}

/// The cell to the left, wrapping within the row.
pub open spec fn cursor_left(cell: nat) -> nat {
    let column = cell % (GRID_WIDTH as nat);
    let row_base = cell / (GRID_WIDTH as nat) * (GRID_WIDTH as nat);
    if column > 0 {
        (row_base + column - 1) as nat
    } else {
        (row_base + GRID_WIDTH - 1) as nat
    }
}

/// The cell to the right, wrapping within the row.
pub open spec fn cursor_right(cell: nat) -> nat {
    let column = cell % (GRID_WIDTH as nat);
    let row_base = cell / (GRID_WIDTH as nat) * (GRID_WIDTH as nat);
    (row_base + ((column + 1) as int) % (GRID_WIDTH as int)) as nat
}

/// The index of the first game with the given id, if any.
pub open spec fn game_position(games: Seq<(u64, PluginType)>, id: u64) -> Option<int>
    decreases games.len(),
{
    if games.len() == 0 {
        None
    } else if games[0].0 == id {
        Some(0)
    } else {
        match game_position(games.drop_first(), id) {
            Some(i) => Some(i + 1),
            None => None,
        }
    }
}

/// The games of a list, without those of the given id.
pub open spec fn without_game(games: Seq<(u64, PluginType)>, id: u64) -> Seq<(u64, PluginType)>
    decreases games.len(),
{
    if games.len() == 0 {
        Seq::empty()
    } else if games.last().0 == id {
        without_game(games.drop_last(), id)
    } else {
        without_game(games.drop_last(), id).push(games.last())
    }
}

/// The index in the game listing after `Up` (forward, wrapping) from the
/// game at `idx` of `n`.
pub open spec fn listing_up(idx: int, n: int) -> int {
    (idx + 1) % n
}

/// The index in the game listing after `Down` (backward, wrapping) from
/// the game at `idx` of `n`.
pub open spec fn listing_down(idx: int, n: int) -> int {
    if idx > 0 {
        idx - 1
    } else {
        n - 1
    }
}

proof fn lemma_first_index(s: Seq<char>, c: char)
    ensures
        match first_index(s, c) {
            Some(i) => 0 <= i < s.len() && s[i] == c && forall|j: int| 0 <= j < i ==> s[j] != c,
            None => forall|j: int| 0 <= j < s.len() ==> s[j] != c,
        },
    decreases s.len(),
{
    if s.len() > 0 {
        lemma_first_index(s.drop_first(), c);
        if s[0] != c {
            match first_index(s.drop_first(), c) {
                Some(i) => {
                    assert forall|j: int| 0 <= j < i + 1 implies s[j] != c by {
                        if j > 0 {
                            assert(s[j] == s.drop_first()[j - 1]);
                        }
                    }
                },
                None => {
                    assert forall|j: int| 0 <= j < s.len() implies s[j] != c by {
                        if j > 0 {
                            assert(s[j] == s.drop_first()[j - 1]);
                        }
                    }
                },
            }
        }
    }
}

proof fn lemma_first_index_unique(s: Seq<char>, c: char, i: int)
    requires
        0 <= i < s.len(),
        s[i] == c,
        forall|j: int| 0 <= j < i ==> s[j] != c,
    ensures
        first_index(s, c) == Some(i),
    decreases s.len(),
{
    if i > 0 {
        assert forall|j: int| 0 <= j < i - 1 implies s.drop_first()[j] != c by {
            assert(s.drop_first()[j] == s[j + 1]);
        }
        lemma_first_index_unique(s.drop_first(), c, i - 1);
    }
}

proof fn lemma_game_position(games: Seq<(u64, PluginType)>, id: u64)
    ensures
        match game_position(games, id) {
            Some(i) => 0 <= i < games.len() && games[i].0 == id && forall|j: int|
                0 <= j < i ==> games[j].0 != id,
            None => forall|j: int| 0 <= j < games.len() ==> games[j].0 != id,
        },
    decreases games.len(),
{
    if games.len() > 0 {
        lemma_game_position(games.drop_first(), id);
        if games[0].0 != id {
            match game_position(games.drop_first(), id) {
                Some(i) => {
                    assert forall|j: int| 0 <= j < i + 1 implies games[j].0 != id by {
                        if j > 0 {
                            assert(games[j] == games.drop_first()[j - 1]);
                        }
                    }
                },
                None => {
                    assert forall|j: int| 0 <= j < games.len() implies games[j].0 != id by {
                        if j > 0 {
                            assert(games[j] == games.drop_first()[j - 1]);
                        }
                    }
                },
            }
        }
    }
}

proof fn lemma_game_position_unique(games: Seq<(u64, PluginType)>, id: u64, i: int)
    requires
        0 <= i < games.len(),
        games[i].0 == id,
        forall|j: int| 0 <= j < i ==> games[j].0 != id,
    ensures
        game_position(games, id) == Some(i),
    decreases games.len(),
{
    if i > 0 {
        assert forall|j: int| 0 <= j < i - 1 implies games.drop_first()[j].0 != id by {
            assert(games.drop_first()[j] == games[j + 1]);
        }
        lemma_game_position_unique(games.drop_first(), id, i - 1);
    }
}

/// The listing's selection after `key`, from the game at index `idx` of the
/// announced games, or `None` where the key does not move it.
pub open spec fn listing_target(games: Seq<(u64, PluginType)>, idx: int, key: KeyCode) -> Option<u64> {
    match key {
        KeyCode::Up => Some(games[listing_up(idx, games.len() as int)].0),
        KeyCode::Down => Some(games[listing_down(idx, games.len() as int)].0),
        _ => None,
    }
}

/// The cursor after `key` in a game of tick-tack-toe, where the key moves it.
pub open spec fn cursor_after(cell: nat, key: KeyCode) -> nat {
    match key {
        KeyCode::Up => cursor_up(cell),
        KeyCode::Down => cursor_down(cell),
        KeyCode::Left => cursor_left(cell),
        KeyCode::Right => cursor_right(cell),
        _ => cell,
    }
}

/// The cursor can take a step without overflowing.
pub open spec fn cursor_in_range(g: GameInput) -> bool {
    g matches GameInput::TickTackToe { selected_cell } ==> selected_cell + GRID_WIDTH <= usize::MAX
}

impl Input {
    /// A client in no mode, playing no game, for the user `username`.
    pub fn new(username: &str) -> (res: Self)
        ensures
            res.mode == Mode::Idle,
            res.game_input_state == GameInput::Idle,
            res.model.username@ == username@,
            res.model.active_games@ == Seq::<(u64, PluginType)>::empty(),
            res.model.current_game is None,
            res.model.chat_history@.len() == 0,
            res.model.chat_input@.len() == 0,
            res.model.chat_error@ == Seq::<char>::empty(),
    {
        Input { mode: Mode::Idle, game_input_state: GameInput::Idle, model: Model::new(username) }
    }

    /// Reacts to a key: `Esc` always returns to no mode; any other key goes
    /// to the handler of the current mode.
    pub fn on_key_press(&mut self, key: KeyCode) -> (res: KeyResult)
        requires
            cursor_in_range(old(self).game_input_state),
        ensures
            key == KeyCode::Esc ==> res is Nothing && final(self).mode == Mode::Idle
                && final(self).game_input_state == old(self).game_input_state && final(self).model
                == old(self).model,
            key != KeyCode::Esc ==> match old(self).mode {
                Mode::Idle => none_mode_key(*old(self), key, *final(self), res),
                Mode::Chat => chat_mode_key(*old(self), key, *final(self), res),
                Mode::GameListing { selected_game_id } => listing_mode_key(
                    *old(self),
                    selected_game_id,
                    key,
                    *final(self),
                    res,
                ),
                Mode::PlayGame => play_mode_key(*old(self), key, *final(self), res),
                Mode::NewGame(p) => new_game_mode_key(*old(self), p, key, *final(self), res),
            },
    {
        if key == KeyCode::Esc {
            self.mode = Mode::Idle;
            return KeyResult::Nothing;
        }
        match self.mode {
            Mode::Idle => self.on_key_press_none(key),
            Mode::Chat => self.on_key_press_chat(key),
            Mode::GameListing { selected_game_id } => self.on_key_press_game_listing(
                selected_game_id,
                key,
            ),
            Mode::PlayGame => self.on_key_press_play_game(key),
            Mode::NewGame(selected_plugin_type) => self.on_key_press_new_game(
                selected_plugin_type,
                key,
            ),
        }
    }

    fn on_key_press_none(&mut self, key: KeyCode) -> (res: KeyResult)
        ensures
            none_mode_key(*old(self), key, *final(self), res),
    {
        match key {
            KeyCode::Char('q') => KeyResult::Quit,
            KeyCode::Char('c') => {
                self.mode = Mode::Chat;
                KeyResult::Nothing
            },
            KeyCode::Char('p') => {
                self.mode = Mode::PlayGame;
                KeyResult::Nothing
            },
            KeyCode::Char('l') => {
                let selected_game_id = if self.model.active_games.len() == 0 {
                    0
                } else {
                    self.model.active_games[0].0
                };
                self.mode = Mode::GameListing { selected_game_id };
                KeyResult::Nothing
            },
            KeyCode::Char('n') => {
                self.mode = Mode::NewGame(PluginType::TickTackToe);
                KeyResult::Nothing
            },
            _ => KeyResult::Nothing,
        }
    }

    fn join_chat_input(&self) -> (res: String)
        ensures
            res@ == join_lines(lines_of(self.model.chat_input@)),
    {
        let mut message = String::new();
        let ghost lines = lines_of(self.model.chat_input@);
        let mut i: usize = 0;
        while i < self.model.chat_input.len()
            invariant
                i <= self.model.chat_input.len(),
                lines == lines_of(self.model.chat_input@),
                message@ == join_lines(lines.take(i as int)),
            decreases self.model.chat_input.len() - i,
        {
            if i > 0 {
                message.append("\n");
            }
            message.append(self.model.chat_input[i].as_str());
            proof {
                let t = lines.take(i + 1);
                assert(t.drop_last() =~= lines.take(i as int));
                assert(t.last() == self.model.chat_input@[i as int]@);
                if i == 0 {
                    assert(t.len() == 1);
                } else {
                    reveal_strlit("\n");
                    assert("\n"@ =~= seq!['\n']);
                }
            }
            i = i + 1;
        }
        assert(lines.take(i as int) =~= lines);
        message
    }

    /// Takes the typed chat text apart at its first `@` into recipient and
    /// message, and clears the input; on a problem, sets the chat error.
    pub fn take_chat_message(&mut self) -> (res: Option<ChatMessage>)
        ensures
            take_chat(*old(self), *final(self), res),
    {
        let message = self.join_chat_input();
        let ghost text = message@;
        let len = message.as_str().unicode_len();
        if len == 0 {
            self.model.chat_error = String::new();
            return None;
        }
        let mut i: usize = 0;
        let mut found = false;
        while i < len && !found
            invariant
                i <= len,
                len == text.len(),
                message@ == text,
                found ==> i < len && text[i as int] == '@',
                forall|j: int| 0 <= j < i ==> text[j] != '@',
            decreases 2 * (len - i) + if found {
                0int
            } else {
                1int
            },
        {
            if message.as_str().get_char(i) == '@' {
                found = true;
            } else {
                i = i + 1;
            }
        }
        if !found {
            proof {
                lemma_first_index(text, '@');
                assert(first_index(text, '@') is None) by {
                    if let Some(k) = first_index(text, '@') {
                        assert(text[k] == '@');
                    }
                }
            }
            self.model.chat_error = String::from_str(
                "invalid message format, please use <recipient>@<message>",
            );
            return None;
        }
        proof {
            lemma_first_index_unique(text, '@', i as int);
        }
        let recipient = message.as_str().substring_char(0, i);
        let content = message.as_str().substring_char(i + 1, len);
        if crate::text::str_eq(recipient, self.model.username.as_str()) {
            self.model.chat_error = String::from_str("Sender can't a message to themselves!");
            None
        } else {
            self.model.chat_input = Vec::new();
            Some(
                ChatMessage {
                    username: String::from_str(recipient),
                    message: String::from_str(content),
                },
            )
        }
    }

    fn on_key_press_chat(&mut self, key: KeyCode) -> (res: KeyResult)
        ensures
            chat_mode_key(*old(self), key, *final(self), res),
    {
        match key {
            KeyCode::Char(c) => {
                if self.model.chat_input.len() == 0 {
                    self.model.chat_input.push(String::new());
                }
                let ghost before = self.model.chat_input@;
                let mut line = self.model.chat_input.pop().unwrap();
                push_char(&mut line, c);
                self.model.chat_input.push(line);
                proof {
                    assert(lines_of(self.model.chat_input@) =~= lines_of(before).update(
                        before.len() - 1,
                        before.last()@.push(c),
                    ));
                    if old(self).model.chat_input@.len() == 0 {
                        assert(lines_of(before) =~= seq![Seq::<char>::empty()]);
                        assert(lines_of(self.model.chat_input@) =~= seq![seq![c]]);
                    } else {
                        assert(before == old(self).model.chat_input@);
                    }
                }
            },
            KeyCode::Backspace => {
                if self.model.chat_input.len() > 0 {
                    let ghost before = self.model.chat_input@;
                    let mut line = self.model.chat_input.pop().unwrap();
                    if line.as_str().unicode_len() == 0 {
                        assert(lines_of(self.model.chat_input@) =~= lines_of(before).drop_last());
                    } else {
                        let _ = pop_char(&mut line);
                        self.model.chat_input.push(line);
                        assert(lines_of(self.model.chat_input@) =~= lines_of(before).update(
                            before.len() - 1,
                            before.last()@.drop_last(),
                        ));
                    }
                }
            },
            KeyCode::Tab => {
                if let Some(msg) = self.take_chat_message() {
                    return KeyResult::SendChat(msg);
                }
            },
            KeyCode::Enter => {
                let ghost before = self.model.chat_input@;
                self.model.chat_input.push(String::new());
                assert(lines_of(self.model.chat_input@) =~= lines_of(before).push(Seq::empty()));
            },
            _ => {},
        }
        KeyResult::Nothing
    }

    fn on_key_press_game_listing(&mut self, selected_game_id: u64, key: KeyCode) -> (res:
        KeyResult)
        ensures
            listing_mode_key(*old(self), selected_game_id, key, *final(self), res),
    {
        let game_count = self.model.active_games.len();
        if game_count == 0 {
            return KeyResult::Nothing;
        }
        let mut idx: usize = 0;
        let mut found = false;
        while idx < game_count && !found
            invariant
                game_count == self.model.active_games@.len(),
                idx <= game_count,
                found ==> idx < game_count && self.model.active_games@[idx as int].0
                    == selected_game_id,
                forall|j: int| 0 <= j < idx ==> self.model.active_games@[j].0 != selected_game_id,
            decreases 2 * (game_count - idx) + if found {
                0int
            } else {
                1int
            },
        {
            if self.model.active_games[idx].0 == selected_game_id {
                found = true;
            } else {
                idx = idx + 1;
            }
        }
        proof {
            lemma_game_position(self.model.active_games@, selected_game_id);
            if found {
                lemma_game_position_unique(
                    self.model.active_games@,
                    selected_game_id,
                    idx as int,
                );
            }
        }
        if !found {
            idx = 0;
        }
        match key {
            KeyCode::Up => {
                self.mode = Mode::GameListing {
                    selected_game_id: self.model.active_games[(idx + 1) % game_count].0,
                };
            },
            KeyCode::Down => {
                let prev_idx = if idx > 0 {
                    idx - 1
                } else {
                    game_count - 1
                };
                self.mode = Mode::GameListing {
                    selected_game_id: self.model.active_games[prev_idx].0,
                };
            },
            KeyCode::Enter => {
                self.mode = Mode::Idle;
                return KeyResult::EnterGame { game_id: selected_game_id };
            },
            _ => {},
        }
        KeyResult::Nothing
    }

    fn on_key_press_play_game(&mut self, key: KeyCode) -> (res: KeyResult)
        requires
            cursor_in_range(old(self).game_input_state),
        ensures
            play_mode_key(*old(self), key, *final(self), res),
    {
        let (game_id, ttt) = match &self.model.current_game {
            None => {
                return KeyResult::Nothing;
            },
            Some((game_id, ClientState::TickTackToe(ttt))) => (*game_id, ttt),
        };
        match self.game_input_state {
            GameInput::Idle => KeyResult::Nothing,
            GameInput::TickTackToe { selected_cell } => {
                let new_cell = match key {
                    KeyCode::Up => {
                        if selected_cell < GRID_WIDTH {
                            selected_cell + (CELL_COUNT - GRID_WIDTH)
                        } else {
                            selected_cell - GRID_WIDTH
                        }
                    },
                    KeyCode::Down => (selected_cell + GRID_WIDTH) % CELL_COUNT,
                    KeyCode::Left => {
                        let column = selected_cell % GRID_WIDTH;
                        let row_base = (selected_cell / GRID_WIDTH) * GRID_WIDTH;
                        let new_column = if column > 0 {
                            column - 1
                        } else {
                            GRID_WIDTH - 1
                        };
                        row_base + new_column
                    },
                    KeyCode::Right => {
                        let column = selected_cell % GRID_WIDTH;
                        let row_base = (selected_cell / GRID_WIDTH) * GRID_WIDTH;
                        let new_column = (column + 1) % GRID_WIDTH;
                        row_base + new_column
                    },
                    KeyCode::Enter => {
                        return KeyResult::SendGameMsg {
                            game_id,
                            msg: ttt.request_move_msg(selected_cell),
                        };
                    },
                    _ => selected_cell,
                };
                self.game_input_state = GameInput::TickTackToe { selected_cell: new_cell };
                KeyResult::Nothing
            },
        }
    }

    fn on_key_press_new_game(&mut self, plugin_type: PluginType, key: KeyCode) -> (res:
        KeyResult)
        ensures
            new_game_mode_key(*old(self), plugin_type, key, *final(self), res),
    {
        match key {
            KeyCode::Up => self.mode = Mode::NewGame(plugin_type.prev()),
            KeyCode::Down => self.mode = Mode::NewGame(plugin_type.next()),
            KeyCode::Enter => {
                self.mode = Mode::Idle;
                return KeyResult::NewGame(plugin_type);
            },
            _ => {},
        }
        KeyResult::Nothing
    }

    /// Takes in a message from the server. `decoded` is what the game message
    /// that `msg` carries (in `GameUpdate` and `GameEntered`) decoded to; it is
    /// not read for the other messages.
    pub fn recv_server_msg(&mut self, msg: ServerMessage, decoded: Result<Message, String>)
        ensures
            server_msg_effect(*old(self), msg, decoded, *final(self)),
    {
        match msg {
            ServerMessage::LoginSuccess => {},
            ServerMessage::LoginFailed { .. } => {},
            ServerMessage::NewGameCreated { game_id, plugin_type } => {
                let ghost old_games = self.model.active_games@;
                let mut kept: Vec<(u64, PluginType)> = Vec::new();
                let mut i: usize = 0;
                while i < self.model.active_games.len()
                    invariant
                        i <= self.model.active_games.len(),
                        self.model.active_games@ == old_games,
                        kept@ == without_game(old_games.take(i as int), game_id),
                    decreases self.model.active_games.len() - i,
                {
                    let g = self.model.active_games[i];
                    proof {
                        let t = old_games.take(i + 1);
                        assert(t.drop_last() =~= old_games.take(i as int));
                        assert(t.last() == g);
                    }
                    if g.0 != game_id {
                        kept.push(g);
                    }
                    i = i + 1;
                }
                assert(old_games.take(i as int) =~= old_games);
                kept.push((game_id, plugin_type));
                self.model.active_games = kept;
            },
            ServerMessage::RecvChatMessage { from, message } => {
                let ghost old_history = self.model.chat_history@;
                self.model.chat_history.push(ChatMessage { username: from, message });
                assert(self.model.chat_history@.drop_last() =~= old_history);
            },
            ServerMessage::GameUpdate { game_id, .. } => {
                match &mut self.model.current_game {
                    Some((id, state)) => {
                        if *id == game_id {
                            state.recv_msg(decoded);
                        }
                    },
                    None => {},
                }
            },
            ServerMessage::GameEntered { game_id, plugin_type, .. } => {
                let mut client = plugin_type.new_client();
                client.recv_msg(decoded);
                self.model.current_game = Some((game_id, client));
                self.game_input_state = GameInput::TickTackToe { selected_cell: 0 };
            },
        }
    }
}

/// `take_chat_message` took `before` to `after` with result `res`.
pub open spec fn take_chat(before: Input, after: Input, res: Option<ChatMessage>) -> bool {
    let text = join_lines(lines_of(before.model.chat_input@));
    &&& after.mode == before.mode
    &&& after.game_input_state == before.game_input_state
    &&& after.model.username == before.model.username
    &&& after.model.active_games == before.model.active_games
    &&& after.model.current_game == before.model.current_game
    &&& after.model.chat_history == before.model.chat_history
    &&& if text.len() == 0 {
        &&& res is None
        &&& after.model.chat_error@ == Seq::<char>::empty()
        &&& after.model.chat_input == before.model.chat_input
    } else {
        match first_index(text, '@') {
            None => {
                &&& res is None
                &&& after.model.chat_error@ == format_error()
                &&& after.model.chat_input == before.model.chat_input
            },
            Some(i) => if text.take(i) == before.model.username@ {
                &&& res is None
                &&& after.model.chat_error@ == self_message_error()
                &&& after.model.chat_input == before.model.chat_input
            } else {
                &&& res matches Some(m) && m.username@ == text.take(i) && m.message@ == text.skip(
                    i + 1,
                )
                &&& after.model.chat_error == before.model.chat_error
                &&& after.model.chat_input@.len() == 0
            },
        }
    }
}

/// Only the mode changed, to `mode`.
pub open spec fn mode_set(before: Input, after: Input, mode: Mode) -> bool {
    after.mode == mode && after.game_input_state == before.game_input_state && after.model
        == before.model
}

/// A key in no mode.
pub open spec fn none_mode_key(before: Input, key: KeyCode, after: Input, res: KeyResult) -> bool {
    match key {
        KeyCode::Char('q') => res is Quit && after == before,
        KeyCode::Char('c') => res is Nothing && mode_set(before, after, Mode::Chat),
        KeyCode::Char('p') => res is Nothing && mode_set(before, after, Mode::PlayGame),
        KeyCode::Char('l') => res is Nothing && mode_set(
            before,
            after,
            Mode::GameListing {
                selected_game_id: if before.model.active_games@.len() == 0 {
                    0
                } else {
                    before.model.active_games@[0].0
                },
            },
        ),
        KeyCode::Char('n') => res is Nothing && mode_set(
            before,
            after,
            Mode::NewGame(PluginType::TickTackToe),
        ),
        _ => res is Nothing && after == before,
    }
}

/// The chat input after typing `c`: the character goes at the end of the
/// last line, and a first line is opened if there is none.
pub open spec fn lines_typed(lines: Seq<Seq<char>>, c: char) -> Seq<Seq<char>> {
    if lines.len() == 0 {
        seq![seq![c]]
    } else {
        lines.update(lines.len() - 1, lines.last().push(c))
    }
}

/// The chat input after `Backspace`: the last character goes, or, from an
/// empty last line, the line.
pub open spec fn lines_backspaced(lines: Seq<Seq<char>>) -> Seq<Seq<char>> {
    if lines.len() == 0 {
        lines
    } else if lines.last().len() == 0 {
        lines.drop_last()
    } else {
        lines.update(lines.len() - 1, lines.last().drop_last())
    }
}

/// Only the chat input changed, to `lines`.
pub open spec fn chat_input_set(before: Input, after: Input, lines: Seq<Seq<char>>) -> bool {
    &&& after.mode == before.mode
    &&& after.game_input_state == before.game_input_state
    &&& after.model.username == before.model.username
    &&& after.model.active_games == before.model.active_games
    &&& after.model.current_game == before.model.current_game
    &&& after.model.chat_history == before.model.chat_history
    &&& after.model.chat_error == before.model.chat_error
    &&& lines_of(after.model.chat_input@) == lines
}

/// A key in chat mode: a character goes at the end of the last line (a first
/// line is opened if there is none), `Backspace` removes the last character
/// or, from an empty last line, the line, `Enter` opens a new line, and `Tab`
/// sends the message.
pub open spec fn chat_mode_key(before: Input, key: KeyCode, after: Input, res: KeyResult) -> bool {
    let lines = lines_of(before.model.chat_input@);
    match key {
        KeyCode::Char(c) => res is Nothing && chat_input_set(before, after, lines_typed(lines, c)),
        KeyCode::Backspace => res is Nothing && chat_input_set(
            before,
            after,
            lines_backspaced(lines),
        ),
        KeyCode::Enter => res is Nothing && chat_input_set(before, after, lines.push(Seq::empty())),
        KeyCode::Tab => exists|m: Option<ChatMessage>|
            #[trigger] take_chat(before, after, m) && match m {
                Some(msg) => res == KeyResult::SendChat(msg),
                None => res is Nothing,
            },
        _ => res is Nothing && after == before,
    }
}

/// A key in the game listing: `Up` and `Down` move the selection forward and
/// back through the announced games, wrapping round, and `Enter` enters the
/// selected game. An unknown selection counts as the first game.
pub open spec fn listing_mode_key(
    before: Input,
    selected: u64,
    key: KeyCode,
    after: Input,
    res: KeyResult,
) -> bool {
    let games = before.model.active_games@;
    let idx = match game_position(games, selected) {
        Some(i) => i,
        None => 0,
    };
    if games.len() == 0 {
        res is Nothing && after == before
    } else {
        match key {
            KeyCode::Enter => res == KeyResult::EnterGame { game_id: selected } && mode_set(
                before,
                after,
                Mode::Idle,
            ),
            KeyCode::Up | KeyCode::Down => res is Nothing && mode_set(
                before,
                after,
                Mode::GameListing {
                    selected_game_id: listing_target(games, idx, key).unwrap(),
                },
            ),
            _ => res is Nothing && after == before,
        }
    }
}

/// A key while playing: the arrows move the cursor over the board, wrapping
/// round, and `Enter` asks to put the player's piece under the cursor.
pub open spec fn play_mode_key(before: Input, key: KeyCode, after: Input, res: KeyResult) -> bool {
    match (before.model.current_game, before.game_input_state) {
        (Some((game_id, game)), GameInput::TickTackToe { selected_cell }) => match key {
            KeyCode::Enter => after == before && (res matches KeyResult::SendGameMsg {
                game_id: g,
                msg,
            } && g == game_id && msg@ == message_json(
                Message::FillCell { idx: selected_cell, content: game@.player_cell },
            )),
            _ => res is Nothing && after.mode == before.mode && after.model == before.model
                && after.game_input_state == GameInput::TickTackToe {
                selected_cell: cursor_after(selected_cell as nat, key) as usize,
            },
        },
        _ => res is Nothing && after == before,
    }
}

/// A key while choosing a kind of game: `Up` and `Down` go back and forward
/// through the kinds, and `Enter` asks for a new game of the chosen kind.
pub open spec fn new_game_mode_key(
    before: Input,
    plugin_type: PluginType,
    key: KeyCode,
    after: Input,
    res: KeyResult,
) -> bool {
    match key {
        KeyCode::Up => res is Nothing && mode_set(before, after, Mode::NewGame(prev_plugin(plugin_type))),
        KeyCode::Down => res is Nothing && mode_set(
            before,
            after,
            Mode::NewGame(next_plugin(plugin_type)),
        ),
        KeyCode::Enter => res == KeyResult::NewGame(plugin_type) && mode_set(
            before,
            after,
            Mode::Idle,
        ),
        _ => res is Nothing && after == before,
    }
}

/// The model after a message from the server: a new game is announced once
/// (at the end of the list), a chat message is kept, an update of the game
/// being played goes to it, and entering a game starts it afresh with the
/// cursor on the first cell.
pub open spec fn server_msg_effect(
    before: Input,
    msg: ServerMessage,
    decoded: Result<Message, String>,
    after: Input,
) -> bool {
    &&& after.mode == before.mode
    &&& after.model.username == before.model.username
    &&& after.model.chat_input == before.model.chat_input
    &&& after.model.chat_error == before.model.chat_error
    &&& match msg {
        ServerMessage::NewGameCreated { game_id, plugin_type } => {
            &&& after.model.active_games@ == without_game(before.model.active_games@, game_id).push(
                (game_id, plugin_type),
            )
            &&& after.model.chat_history == before.model.chat_history
            &&& after.model.current_game == before.model.current_game
            &&& after.game_input_state == before.game_input_state
        },
        ServerMessage::RecvChatMessage { from, message } => {
            &&& after.model.chat_history@.len() == before.model.chat_history@.len() + 1
            &&& after.model.chat_history@.drop_last() == before.model.chat_history@
            &&& after.model.chat_history@.last().username == from
            &&& after.model.chat_history@.last().message == message
            &&& after.model.active_games == before.model.active_games
            &&& after.model.current_game == before.model.current_game
            &&& after.game_input_state == before.game_input_state
        },
        ServerMessage::GameUpdate { game_id, .. } => {
            &&& after.model.active_games == before.model.active_games
            &&& after.model.chat_history == before.model.chat_history
            &&& after.game_input_state == before.game_input_state
            &&& match before.model.current_game {
                Some((id, game)) => if id == game_id {
                    (after.model.current_game matches Some((id2, game2)) && id2 == id && game2@
                        == match decoded {
                        Ok(m) => client_after(game@, m),
                        Err(_) => game@,
                    })
                } else {
                    after.model.current_game == before.model.current_game
                },
                None => after.model.current_game is None,
            }
        },
        ServerMessage::GameEntered { game_id, .. } => {
            &&& after.model.active_games == before.model.active_games
            &&& after.model.chat_history == before.model.chat_history
            &&& after.game_input_state == GameInput::TickTackToe { selected_cell: 0 }
            &&& after.model.current_game matches Some((id, game)) && id == game_id && game@
                == match decoded {
                Ok(m) => client_after(
                    crate::plugins::tick_tack_toe::ClientView {
                        player_cell: Cell::Empty,
                        cells: crate::plugins::tick_tack_toe::empty_board(),
                    },
                    m,
                ),
                Err(_) => crate::plugins::tick_tack_toe::ClientView {
                    player_cell: Cell::Empty,
                    cells: crate::plugins::tick_tack_toe::empty_board(),
                },
            }
        },
        _ => {
            &&& after.model.active_games == before.model.active_games
            &&& after.model.chat_history == before.model.chat_history
            &&& after.model.current_game == before.model.current_game
            &&& after.game_input_state == before.game_input_state
        },
    }
}

/// On the board, every arrow key keeps the cursor on the board; `Up` and
/// `Down` undo each other, and so do `Left` and `Right`; `Left` and `Right`
/// keep the cursor in its row, and three steps in one direction come back to
/// the start.
pub proof fn lemma_cursor_moves(cell: nat)
    requires
        cell < CELL_COUNT,
    ensures
        cursor_up(cell) < CELL_COUNT,
        cursor_down(cell) < CELL_COUNT,
        cursor_left(cell) < CELL_COUNT,
        cursor_right(cell) < CELL_COUNT,
        cursor_down(cursor_up(cell)) == cell,
        cursor_up(cursor_down(cell)) == cell,
        cursor_right(cursor_left(cell)) == cell,
        cursor_left(cursor_right(cell)) == cell,
        cursor_left(cell) / 3 == cell / 3,
        cursor_right(cell) / 3 == cell / 3,
        cursor_right(cursor_right(cursor_right(cell))) == cell,
        cursor_down(cursor_down(cursor_down(cell))) == cell,
{
    assert(cell == 0 || cell == 1 || cell == 2 || cell == 3 || cell == 4 || cell == 5 || cell == 6
        || cell == 7 || cell == 8);
}

/// In the game listing, `Up` and then `Down` come back to the game one
/// started from, and so do `Down` and then `Up`.
pub proof fn lemma_listing_moves(idx: int, n: int)
    requires
        0 <= idx < n,
    ensures
        0 <= listing_up(idx, n) < n,
        0 <= listing_down(idx, n) < n,
        listing_down(listing_up(idx, n), n) == idx,
        listing_up(listing_down(idx, n), n) == idx,
{
    if idx + 1 < n {
        vstd::arithmetic::div_mod::lemma_small_mod((idx + 1) as nat, n as nat);
    } else {
        vstd::arithmetic::div_mod::lemma_mod_self_0(n);
    }
    if idx > 0 {
        vstd::arithmetic::div_mod::lemma_small_mod(idx as nat, n as nat);
    } else {
        vstd::arithmetic::div_mod::lemma_mod_self_0(n);
        vstd::arithmetic::div_mod::lemma_small_mod((n - 1) as nat, n as nat);
    }
}

/// Typing a character and then `Backspace` leaves a non-empty chat input as
/// it was; `Enter` and then `Backspace` too.
pub proof fn lemma_typing_undone(lines: Seq<Seq<char>>, c: char)
    requires
        lines.len() > 0,
    ensures
        lines_backspaced(lines_typed(lines, c)) == lines,
        lines_backspaced(lines.push(Seq::empty())) == lines,
{
    assert(lines_typed(lines, c).last() == lines.last().push(c));
    assert(lines.last().push(c).drop_last() =~= lines.last());
    assert(lines_backspaced(lines_typed(lines, c)) =~= lines);
    assert(lines.push(Seq::empty()).drop_last() =~= lines);
}

/// A chat message that was taken out of the input is the text before the
/// first `@` and the text after it: put back together with the `@`, they
/// give the typed text; the recipient holds no `@`, and is not the sender.
pub proof fn lemma_chat_message_parts(
    before: Input,
    after: Input,
    recipient: Seq<char>,
    message: Seq<char>,
    m: ChatMessage,
)
    requires
        take_chat(before, after, Some(m)),
        recipient == m.username@,
        message == m.message@,
    ensures
        recipient + seq!['@'] + message == join_lines(lines_of(before.model.chat_input@)),
        !recipient.contains('@'),
        recipient != before.model.username@,
{
    let text = join_lines(lines_of(before.model.chat_input@));
    lemma_first_index(text, '@');
    let i = first_index(text, '@')->0;
    assert(text.take(i) + seq!['@'] + text.skip(i + 1) =~= text);
    if recipient.contains('@') {
        let j = choose|j: int| 0 <= j < recipient.len() && recipient[j] == '@';
        assert(text[j] == recipient[j]);
    }
}

/// Entering a game shows the game as the server sent it: after a
/// `GameEntered` whose game message is a whole board, the current game is the
/// one entered, with the piece and every cell that the server sent, and the
/// cursor on the first cell; the chat and the listing stay as they were.
pub proof fn lemma_entered_game_shows_state(
    before: Input,
    after: Input,
    game_id: u64,
    plugin_type: PluginType,
    game_state_msg: String,
    player_cell: Cell,
    cells: [Cell; 9],
)
    requires
        server_msg_effect(
            before,
            (ServerMessage::GameEntered { game_id, plugin_type, game_state_msg }),
            Ok((Message::GameState { player_cell, cells })),
            after,
        ),
    ensures
        (after.model.current_game matches Some((id, g)) && id == game_id && g@.player_cell
            == player_cell && g@.cells == cells@),
        after.game_input_state == (GameInput::TickTackToe { selected_cell: 0 }),
        after.model.chat_history == before.model.chat_history,
        after.model.active_games == before.model.active_games,
{
}

/// A move relayed in the game being played puts its piece into its cell: the
/// other cells and the client's own piece stay as they were.
pub proof fn lemma_update_fills_cell(
    before: Input,
    after: Input,
    game_id: u64,
    msg: String,
    idx: usize,
    content: Cell,
)
    requires
        (before.model.current_game matches Some((id, g)) && id == game_id && g@.cells.len()
            == CELL_COUNT),
        idx < CELL_COUNT,
        server_msg_effect(
            before,
            (ServerMessage::GameUpdate { game_id, msg }),
            Ok((Message::FillCell { idx, content })),
            after,
        ),
    ensures
        ({
            let g = before.model.current_game->Some_0.1@;
            &&& after.model.current_game is Some
            &&& after.model.current_game->Some_0.0 == game_id
            &&& after.model.current_game->Some_0.1@.cells.len() == CELL_COUNT
            &&& after.model.current_game->Some_0.1@.cells[idx as int] == content
            &&& after.model.current_game->Some_0.1@.player_cell == g.player_cell
            &&& forall|j: int|
                0 <= j < CELL_COUNT && j != idx ==> after.model.current_game->Some_0.1@.cells[j]
                    == g.cells[j]
        }),
{
}

/// A chat message from the server is added at the end of the chat history:
/// the history grows by one, what was there stays in its place, and the new
/// last entry is the sender and the text received.
pub proof fn lemma_chat_history_grows(
    before: Input,
    after: Input,
    from: String,
    message: String,
    decoded: Result<Message, String>,
)
    requires
        server_msg_effect(before, (ServerMessage::RecvChatMessage { from, message }), decoded, after),
    ensures
        after.model.chat_history@.len() == before.model.chat_history@.len() + 1,
        forall|i: int|
            0 <= i < before.model.chat_history@.len() ==> #[trigger] after.model.chat_history@[i]
                == before.model.chat_history@[i],
        after.model.chat_history@[before.model.chat_history@.len() as int].username == from,
        after.model.chat_history@[before.model.chat_history@.len() as int].message == message,
{
    let h = before.model.chat_history@;
    let h2 = after.model.chat_history@;
    assert forall|i: int| 0 <= i < h.len() implies #[trigger] h2[i] == h[i] by {
        assert(h2.drop_last()[i] == h2[i]);
    }
}

/// Two chat messages received one after the other both stay in the history,
/// in the order they came, behind what was there before.
pub proof fn lemma_two_chats_kept(
    first: Input,
    middle: Input,
    last: Input,
    from1: String,
    message1: String,
    decoded1: Result<Message, String>,
    from2: String,
    message2: String,
    decoded2: Result<Message, String>,
)
    requires
        server_msg_effect(
            first,
            (ServerMessage::RecvChatMessage { from: from1, message: message1 }),
            decoded1,
            middle,
        ),
        server_msg_effect(
            middle,
            (ServerMessage::RecvChatMessage { from: from2, message: message2 }),
            decoded2,
            last,
        ),
    ensures
        last.model.chat_history@.len() == first.model.chat_history@.len() + 2,
        forall|i: int|
            0 <= i < first.model.chat_history@.len() ==> #[trigger] last.model.chat_history@[i]
                == first.model.chat_history@[i],
        last.model.chat_history@[first.model.chat_history@.len() as int].username == from1,
        last.model.chat_history@[first.model.chat_history@.len() as int].message == message1,
        last.model.chat_history@[first.model.chat_history@.len() + 1int].username == from2,
        last.model.chat_history@[first.model.chat_history@.len() + 1int].message == message2,
{
    lemma_chat_history_grows(first, middle, from1, message1, decoded1);
    lemma_chat_history_grows(middle, last, from2, message2, decoded2);
    let n = first.model.chat_history@.len() as int;
    assert(last.model.chat_history@[n] == middle.model.chat_history@[n]);
}

/// What a list keeps when the games of an id are taken out: exactly its
/// entries with another id.
proof fn lemma_without_game_contains(games: Seq<(u64, PluginType)>, id: u64, e: (u64, PluginType))
    ensures
        without_game(games, id).contains(e) <==> games.contains(e) && e.0 != id,
    decreases games.len(),
{
    if games.len() > 0 {
        let rest = games.drop_last();
        lemma_without_game_contains(rest, id, e);
        assert(games =~= rest.push(games.last()));
        if games.last().0 == id {
            if games.contains(e) && e.0 != id {
                let k = choose|k: int| 0 <= k < games.len() && games[k] == e;
                assert(rest[k] == e);
            }
        } else {
            let w = without_game(rest, id);
            if w.push(games.last()).contains(e) {
                let k = choose|k: int| 0 <= k < w.len() + 1 && w.push(games.last())[k] == e;
                if k < w.len() {
                    assert(w[k] == e);
                }
            }
            if games.contains(e) && e.0 != id {
                let k = choose|k: int| 0 <= k < games.len() && games[k] == e;
                if k < rest.len() {
                    assert(rest[k] == e);
                    assert(w.contains(e));
                    let k2 = choose|k2: int| 0 <= k2 < w.len() && w[k2] == e;
                    assert(w.push(games.last())[k2] == e);
                } else {
                    assert(w.push(games.last())[w.len() as int] == e);
                }
            }
        }
    }
}

/// A game announced by the server goes to the end of the game listing, and
/// the listing holds it once: the games listed before with another id stay,
/// and nothing else is listed.
pub proof fn lemma_new_game_listed(
    before: Input,
    after: Input,
    game_id: u64,
    plugin_type: PluginType,
    decoded: Result<Message, String>,
)
    requires
        server_msg_effect(
            before,
            (ServerMessage::NewGameCreated { game_id, plugin_type }),
            decoded,
            after,
        ),
    ensures
        after.model.active_games@.len() > 0,
        after.model.active_games@.last() == (game_id, plugin_type),
        forall|i: int|
            0 <= i < after.model.active_games@.len() - 1 ==> (#[trigger] after.model.active_games@[i]).0
                != game_id && before.model.active_games@.contains(after.model.active_games@[i]),
        forall|e: (u64, PluginType)|
            #[trigger] before.model.active_games@.contains(e) && e.0 != game_id
                ==> after.model.active_games@.contains(e),
{
    let w = without_game(before.model.active_games@, game_id);
    let a = after.model.active_games@;
    assert(a == w.push((game_id, plugin_type)));
    assert forall|i: int| 0 <= i < a.len() - 1 implies (#[trigger] a[i]).0 != game_id
        && before.model.active_games@.contains(a[i]) by {
        assert(a[i] == w[i]);
        assert(w.contains(w[i]));
        lemma_without_game_contains(before.model.active_games@, game_id, w[i]);
    }
    assert forall|e: (u64, PluginType)|
        #[trigger] before.model.active_games@.contains(e) && e.0 != game_id implies a.contains(e) by {
        lemma_without_game_contains(before.model.active_games@, game_id, e);
        let k = choose|k: int| 0 <= k < w.len() && w[k] == e;
        assert(a[k] == e);
    }
}

/// A move relayed in a game other than the one being played, or when none
/// is, changes nothing that the client shows.
pub proof fn lemma_update_elsewhere_ignored(
    before: Input,
    after: Input,
    game_id: u64,
    msg: String,
    decoded: Result<Message, String>,
)
    requires
        !(before.model.current_game matches Some((id, g)) && id == game_id),
        server_msg_effect(before, (ServerMessage::GameUpdate { game_id, msg }), decoded, after),
    ensures
        after == before,
{
}

} // verus!
