//! Tick-tack-toe: the board that clients draw and the server keeps, the
//! messages that change it, and the server's record of who plays which piece.
use vstd::prelude::*;
use vstd::string::*;

use crate::plugins::{EvaluateResult, ServerPlugin};
use crate::text::{append_decimal, decimal, str_eq};

verus! {

/// What a cell of the board holds.
#[derive(Clone, Copy, Debug, PartialEq, Eq, Structural)]
pub enum Cell {
    Nought,
    Cross,
    Empty,
}

/// Number of cells on the board.
pub const CELL_COUNT: usize = 9;

/// Number of cells in a row of the board.
pub const GRID_WIDTH: usize = 3;

/// The messages of the game, as they travel between client and server
/// (as JSON text: see [`Message::serialize`]).
#[derive(Clone, Copy, Debug)]
pub enum Message {
    /// The whole board, and the piece of the player it is sent to.
    GameState { player_cell: Cell, cells: [Cell; 9] },
    /// Put `content` into the cell at `idx`.
    FillCell { idx: usize, content: Cell },
}

/// The JSON text of a cell: its variant name in quotes.
pub open spec fn cell_json(c: Cell) -> Seq<char> {
    match c {
        Cell::Nought => "\"Nought\""@,
        Cell::Cross => "\"Cross\""@,
        Cell::Empty => "\"Empty\""@,
    }
}

/// The JSON text of a sequence of cells, without the brackets: the cells'
/// texts separated by commas.
pub open spec fn cells_json(cells: Seq<Cell>) -> Seq<char>
    decreases cells.len(),
{
    if cells.len() == 0 {
        Seq::empty()
    } else if cells.len() == 1 {
        cell_json(cells[0])
    } else {
        cells_json(cells.drop_last()) + ","@ + cell_json(cells.last())
    }
}

/// The JSON text of a `GameState` message with the given piece and board.
pub open spec fn state_json(player_cell: Cell, cells: Seq<Cell>) -> Seq<char> {
    "{\"GameState\":{\"player_cell\":"@ + cell_json(player_cell) + ",\"cells\":["@ + cells_json(
        cells,
    ) + "]}}"@
}

/// The JSON text of a message, in the externally tagged form that
/// `serde_json` gives an enum: an object whose only key is the variant's name.
pub open spec fn message_json(m: Message) -> Seq<char> {
    match m {
        Message::GameState { player_cell, cells } => state_json(player_cell, cells@),
        Message::FillCell { idx, content } => "{\"FillCell\":{\"idx\":"@ + decimal(idx as nat)
            + ",\"content\":"@ + cell_json(content) + "}}"@,
    }
}

fn append_cell(s: &mut String, c: Cell)
    ensures
        final(s)@ == old(s)@ + cell_json(c),
{
    match c {
        Cell::Nought => s.append("\"Nought\""),
        Cell::Cross => s.append("\"Cross\""),
        Cell::Empty => s.append("\"Empty\""),
    }
}

impl Message {
    /// The JSON text of the message.
    pub fn serialize(&self) -> (res: String)
        ensures
            res@ == message_json(*self),
    {
        let mut s = String::new();
        match self {
            Message::GameState { player_cell, cells } => {
                s.append("{\"GameState\":{\"player_cell\":");
                append_cell(&mut s, *player_cell);
                s.append(",\"cells\":[");
                let ghost start = s@;
                let mut i: usize = 0;
                while i < CELL_COUNT
                    invariant
                        i <= CELL_COUNT,
                        s@ == start + cells_json(cells@.take(i as int)),
                    decreases CELL_COUNT - i,
                {
                    if i > 0 {
                        s.append(",");
                    }
                    append_cell(&mut s, cells[i]);
                    proof {
                        let t = cells@.take(i + 1);
                        assert(t.drop_last() =~= cells@.take(i as int));
                        assert(t.last() == cells@[i as int]);
                        if i == 0 {
                            assert(cells@.take(0) =~= Seq::<Cell>::empty());
                        }
                    }
                    i = i + 1;
                }
                assert(cells@.take(9) =~= cells@);
                s.append("]}}");
            },
            Message::FillCell { idx, content } => {
                s.append("{\"FillCell\":{\"idx\":");
                append_decimal(&mut s, *idx as u64);
                s.append(",\"content\":");
                append_cell(&mut s, *content);
                s.append("}}");
            },
        }
        s
    }
}

/// The board.
pub struct GameState {
    cells: [Cell; 9],
}

impl GameState {
    /// An empty board.
    pub fn new() -> (res: Self)
        ensures
            res.cells_view() == empty_board(),
    {
        GameState { cells: [Cell::Empty; 9] }
    }

    /// The cells of the board, row by row.
    pub closed spec fn cells_view(&self) -> Seq<Cell> {
        self.cells@
    }
}

/// A board whose cells are all empty.
pub open spec fn empty_board() -> Seq<Cell> {
    Seq::new(CELL_COUNT as nat, |i: int| Cell::Empty)
}

/// What a client knows: its own piece and the board.
pub struct ClientState {
    player_cell: Cell,
    game_state: GameState,
}

/// The model of a client's state.
pub struct ClientView {
    pub player_cell: Cell,
    pub cells: Seq<Cell>,
}

impl View for ClientState {
    type V = ClientView;

    closed spec fn view(&self) -> ClientView {
        ClientView { player_cell: self.player_cell, cells: self.game_state.cells@ }
    }
}

/// The board after a message: a `GameState` replaces the board, a `FillCell`
/// sets one cell, and a `FillCell` whose index is off the board changes
/// nothing.
pub open spec fn apply_to_cells(cells: Seq<Cell>, m: Message) -> Seq<Cell> {
    match m {
        Message::GameState { cells: new_cells, .. } => new_cells@,
        Message::FillCell { idx, content } => if idx < CELL_COUNT {
            cells.update(idx as int, content)
        } else {
            cells
        },
    }
}

/// A client's state after it received a message.
pub open spec fn client_after(v: ClientView, m: Message) -> ClientView {
    ClientView {
        player_cell: match m {
            Message::GameState { player_cell, .. } => player_cell,
            _ => v.player_cell,
        },
        cells: apply_to_cells(v.cells, m),
    }
}

impl ClientState {
    /// A client that plays `player_cell`, with an empty board.
    pub fn new(player_cell: Cell) -> (res: Self)
        ensures
            res@.player_cell == player_cell,
            res@.cells == empty_board(),
    {
        ClientState { player_cell, game_state: GameState::new() }
    }

    /// The piece that this client plays.
    pub fn player_cell(&self) -> (res: Cell)
        ensures
            res == self@.player_cell,
    {
        self.player_cell
    }

    /// Takes in a message from the server. `decoded` is what the message's
    /// text decoded to: the message, or the decoder's error text, which comes
    /// back behind `Failed to decode msg: ` with the state unchanged.
    pub fn recv_msg(&mut self, decoded: Result<Message, String>) -> (res: Result<(), String>)
        ensures
            match decoded {
                Ok(m) => res is Ok && final(self)@ == client_after(old(self)@, m),
                Err(e) => res matches Err(r) && r@ == decode_error(e@) && final(self)@ == old(self)@,
            },
    {
        match decoded {
            Err(e) => Err(decode_error_text(e)),
            Ok(Message::GameState { player_cell, cells }) => {
                self.player_cell = player_cell;
                self.game_state.cells = cells;
                Ok(())
            },
            Ok(Message::FillCell { idx, content }) => {
                if idx < CELL_COUNT {
                    self.game_state.cells[idx] = content;
                }
                Ok(())
            },
        }
    }

    /// The cells of the board, row by row.
    pub fn get_cells(&self) -> (res: [Cell; 9])
        ensures
            res@ == self@.cells,
    {
        self.game_state.cells
    }

    /// The text of the message that asks to put this client's piece into the
    /// cell at `cell_idx`.
    pub fn request_move_msg(&self, cell_idx: usize) -> (res: String)
        ensures
            res@ == message_json(Message::FillCell { idx: cell_idx, content: self@.player_cell }),
    {
        Message::FillCell { idx: cell_idx, content: self.player_cell }.serialize()
    }

    /// Whether the cell at `cell_idx` is on the board and empty.
    pub fn can_place_at(&self, cell_idx: usize) -> (res: bool)
        ensures
            res == (cell_idx < CELL_COUNT && self@.cells[cell_idx as int] == Cell::Empty),
    {
        if cell_idx < CELL_COUNT {
            self.game_state.cells[cell_idx] == Cell::Empty
        } else {
            false
        }
    }
}

/// The text of a decoding error, from the decoder's own text.
pub open spec fn decode_error(e: Seq<char>) -> Seq<char> {
    "Failed to decode msg: "@ + e
}

fn decode_error_text(e: String) -> (res: String)
    ensures
        res@ == decode_error(e@),
{
    let mut r = String::from_str("Failed to decode msg: ");
    r.append(e.as_str());
    r
}


/// What the server keeps of a game: who plays which piece, and the board.
pub struct Server {
    players: Vec<(String, Cell)>,
    game_state: GameState,
}

/// The model of the server's record of a game: the players in the order in
/// which they joined, with their pieces, and the board.
pub struct ServerView {
    pub players: Seq<(Seq<char>, Cell)>,
    pub cells: Seq<Cell>,
}

impl View for Server {
    type V = ServerView;

    closed spec fn view(&self) -> ServerView {
        ServerView {
            players: self.players@.map_values(|p: (String, Cell)| (p.0@, p.1)),
            cells: self.game_state.cells@,
        }
    }
}

/// The piece of the first player of that name, if any.
pub open spec fn seat_of(players: Seq<(Seq<char>, Cell)>, name: Seq<char>) -> Option<Cell>
    decreases players.len(),
{
    if players.len() == 0 {
        None
    } else if players[0].0 == name {
        Some(players[0].1)
    } else {
        seat_of(players.drop_first(), name)
    }
}

/// The piece that the player who joins as the `n`-th (from zero) gets:
/// noughts first, then crosses.
pub open spec fn newcomer_cell(n: nat) -> Cell {
    if n == 0 {
        Cell::Nought
    } else {
        Cell::Cross
    }
}

/// The most players a game takes.
pub const MAX_PLAYERS: usize = 2;

/// The board that the server keeps after a message: only `FillCell` changes it.
pub open spec fn server_cells_after(cells: Seq<Cell>, m: Message) -> Seq<Cell> {
    match m {
        Message::FillCell { .. } => apply_to_cells(cells, m),
        _ => cells,
    }
}

/// The server's record of a game after `name` asked for its state: a known
/// player changes nothing, a newcomer joins while there is room.
pub open spec fn server_after_join(v: ServerView, name: Seq<char>) -> ServerView {
    if seat_of(v.players, name) is None && v.players.len() < MAX_PLAYERS {
        ServerView { players: v.players.push((name, newcomer_cell(v.players.len()))), cells: v.cells }
    } else {
        v
    }
}

/// The piece that `name` plays after asking for the state, if the game took
/// it in.
pub open spec fn seat_after_join(v: ServerView, name: Seq<char>) -> Option<Cell> {
    match seat_of(v.players, name) {
        Some(c) => Some(c),
        None => if v.players.len() < MAX_PLAYERS {
            Some(newcomer_cell(v.players.len()))
        } else {
            None
        },
    }
}

impl Server {
    /// The first player named `username`, with its index.
    fn find_player(&self, username: &str) -> (res: Option<usize>)
        ensures
            match res {
                Some(i) => i < self@.players.len() && seat_of(self@.players, username@) == Some(
                    self@.players[i as int].1,
                ),
                None => seat_of(self@.players, username@) is None,
            },
    {
        let mut i: usize = 0;
        assert(self@.players.skip(0) =~= self@.players);
        while i < self.players.len()
            invariant
                i <= self.players.len(),
                seat_of(self@.players, username@) == seat_of(self@.players.skip(i as int), username@),
            decreases self.players.len() - i,
        {
            let ghost rest = self@.players.skip(i as int);
            assert(rest[0] == self@.players[i as int]);
            assert(rest.drop_first() =~= self@.players.skip(i + 1));
            if str_eq(self.players[i].0.as_str(), username) {
                return Some(i);
            }
            i = i + 1;
        }
        assert(self@.players.skip(i as int).len() == 0);
        None
    }
}

/// The text of the error for a game that has no room left.
pub open spec fn game_full_error() -> Seq<char> {
    "Game is full"@
}

impl ServerPlugin for Server {
    type Message = Message;

    fn has_user(&self, username: &str) -> (res: bool)
        ensures
            res == (seat_of(self@.players, username@) is Some),
    {
        self.find_player(username).is_some()
    }

    fn get_state_msg_for_user(&mut self, username: &str) -> (res: Result<String, String>)
        ensures
            final(self)@ == server_after_join(old(self)@, username@),
            match seat_after_join(old(self)@, username@) {
                Some(c) => res matches Ok(s) && s@ == state_json(c, old(self)@.cells),
                None => res matches Err(e) && e@ == game_full_error(),
            },
    {
        let player_cell = match self.find_player(username) {
            Some(i) => self.players[i].1,
            None => {
                if self.players.len() < MAX_PLAYERS {
                    let cells = [Cell::Nought, Cell::Cross];
                    let player_cell = cells[self.players.len()];
                    self.players.push((String::from_str(username), player_cell));
                    proof {
                        assert(self@.players =~= old(self)@.players.push(
                            (username@, newcomer_cell(old(self)@.players.len())),
                        ));
                    }
                    player_cell
                } else {
                    return Err(String::from_str("Game is full"));
                }
            },
        };
        Ok(Message::GameState { player_cell, cells: self.game_state.cells }.serialize())
    }

    fn recv_msg(&mut self, msg: &str, decoded: Result<Message, String>) -> (res: Result<
        String,
        String,
    >)
        ensures
            match decoded {
                Ok(m) => res matches Ok(s) && s@ == msg@ && final(self)@ == (ServerView {
                    players: old(self)@.players,
                    cells: server_cells_after(old(self)@.cells, m),
                }),
                Err(e) => res matches Err(r) && r@ == decode_error(e@) && final(self)@ == old(self)@,
            },
    {
        match decoded {
            Err(e) => Err(decode_error_text(e)),
            Ok(m) => {
                match m {
                    Message::FillCell { idx, content } => {
                        if idx < CELL_COUNT {
                            self.game_state.cells[idx] = content;
                        }
                    },
                    _ => {},
                }
                Ok(String::from_str(msg))
            },
        }
    }

    fn evaluate_state(&self) -> (res: EvaluateResult)
        ensures
            res is Running,
    {
        EvaluateResult::Running
    }
}

/// A game with no players and an empty board.
pub fn new_server() -> (res: Server)
    ensures
        res@.players == Seq::<(Seq<char>, Cell)>::empty(),
        res@.cells == empty_board(),
{
    Server { players: Vec::new(), game_state: GameState::new() }
}

} // verus!

verus! {

/// The players of a game are as the server takes them in: at most two,
/// each name once, noughts for the first and crosses for the second.
pub open spec fn seats_ok(v: ServerView) -> bool {
    &&& v.players.len() <= MAX_PLAYERS
    &&& forall|i: int| 0 <= i < v.players.len() ==> (#[trigger] v.players[i]).1 == newcomer_cell(i as nat)
    &&& forall|i: int, j: int|
        0 <= i < j < v.players.len() ==> (#[trigger] v.players[i]).0 != (#[trigger] v.players[j]).0
}

proof fn lemma_seat_of(players: Seq<(Seq<char>, Cell)>, name: Seq<char>)
    ensures
        seat_of(players, name) is None <==> forall|i: int|
            0 <= i < players.len() ==> (#[trigger] players[i]).0 != name,
        seat_of(players, name) matches Some(c) ==> exists|i: int|
            0 <= i < players.len() && (#[trigger] players[i]).0 == name && players[i].1 == c,
    decreases players.len(),
{
    if players.len() > 0 {
        let rest = players.drop_first();
        lemma_seat_of(rest, name);
        assert forall|i: int| 0 < i < players.len() implies players[i] == rest[i - 1] by {}
        if players[0].0 != name {
            if seat_of(rest, name) is None {
                assert forall|i: int| 0 <= i < players.len() implies (#[trigger] players[i]).0 != name by {
                    if i > 0 {
                        assert(players[i] == rest[i - 1]);
                    }
                }
            } else {
                let c = seat_of(rest, name)->0;
                let i = choose|i: int| 0 <= i < rest.len() && (#[trigger] rest[i]).0 == name && rest[i].1 == c;
                assert(players[i + 1] == rest[i]);
            }
        } else {
            assert(players[0].0 == name);
        }
    }
}

proof fn lemma_seat_of_push(players: Seq<(Seq<char>, Cell)>, e: (Seq<char>, Cell), name: Seq<char>)
    ensures
        seat_of(players.push(e), name) == match seat_of(players, name) {
            Some(c) => Some(c),
            None => if e.0 == name {
                Some(e.1)
            } else {
                None
            },
        },
    decreases players.len(),
{
    let p = players.push(e);
    if players.len() == 0 {
        assert(p.drop_first() =~= Seq::<(Seq<char>, Cell)>::empty());
    } else {
        assert(p[0] == players[0]);
        assert(p.drop_first() =~= players.drop_first().push(e));
        lemma_seat_of_push(players.drop_first(), e, name);
    }
}

/// After asking for the state, the user plays the piece that the answer
/// gave: a known player keeps the piece, a newcomer gets the next piece while
/// there is room, and otherwise the user plays no piece.
pub proof fn lemma_join_seat(v: ServerView, name: Seq<char>)
    ensures
        seat_of(server_after_join(v, name).players, name) == seat_after_join(v, name),
        seat_of(v.players, name) matches Some(c) ==> server_after_join(v, name) == v
            && seat_after_join(v, name) == Some(c),
        seat_of(v.players, name) is None && v.players.len() < MAX_PLAYERS ==> seat_after_join(
            v,
            name,
        ) == Some(newcomer_cell(v.players.len())),
        server_after_join(v, name).cells == v.cells,
{
    if seat_of(v.players, name) is None && v.players.len() < MAX_PLAYERS {
        lemma_seat_of_push(v.players, (name, newcomer_cell(v.players.len())), name);
    }
}

/// Asking for the state keeps the players as the server takes them in: a
/// game never holds more than two players, the first plays noughts and the
/// second crosses, and no one joins twice. A move changes no player.
pub proof fn lemma_join_keeps_seats(v: ServerView, name: Seq<char>, m: Message)
    requires
        seats_ok(v),
    ensures
        seats_ok(server_after_join(v, name)),
        seats_ok(ServerView { players: v.players, cells: server_cells_after(v.cells, m) }),
{
    lemma_seat_of(v.players, name);
    let w = server_after_join(v, name);
    if seat_of(v.players, name) is None && v.players.len() < MAX_PLAYERS {
        assert forall|i: int| 0 <= i < w.players.len() implies (#[trigger] w.players[i]).1
            == newcomer_cell(i as nat) by {
            if i < v.players.len() {
                assert(w.players[i] == v.players[i]);
            }
        }
        assert forall|i: int, j: int|
            0 <= i < j < w.players.len() implies (#[trigger] w.players[i]).0 != (
            #[trigger] w.players[j]).0 by {
            assert(w.players[i] == v.players[i]);
            if j < v.players.len() {
                assert(w.players[j] == v.players[j]);
            }
        }
    }
}

/// Asking for the state a second time gives the same piece and changes
/// nothing more.
pub proof fn lemma_join_idempotent(v: ServerView, name: Seq<char>)
    ensures
        seat_after_join(server_after_join(v, name), name) == seat_after_join(v, name),
        server_after_join(server_after_join(v, name), name) == server_after_join(v, name),
{
    lemma_seat_of(v.players, name);
    let w = server_after_join(v, name);
    if seat_of(v.players, name) is None && v.players.len() < MAX_PLAYERS {
        lemma_seat_of(w.players, name);
        let k = v.players.len() as int;
        assert(w.players[k].0 == name);
        assert(seat_of(w.players, name) is Some);
        let c = seat_of(w.players, name)->0;
        let i = choose|i: int|
            0 <= i < w.players.len() && (#[trigger] w.players[i]).0 == name && w.players[i].1 == c;
        if i < k {
            assert(w.players[i] == v.players[i]);
        }
    }
}

/// A game that has two players takes no one else: a third name gets the
/// "Game is full" error and the game stays as it was.
pub proof fn lemma_full_game(v: ServerView, name: Seq<char>)
    requires
        seats_ok(v),
        v.players.len() == MAX_PLAYERS,
        seat_of(v.players, name) is None,
    ensures
        seat_after_join(v, name) is None,
        server_after_join(v, name) == v,
{
}

/// A move on the board puts its piece into its cell and leaves every other
/// cell as it was; a move off the board changes nothing.
pub proof fn lemma_fill_cell(cells: Seq<Cell>, idx: usize, content: Cell)
    requires
        cells.len() == CELL_COUNT,
    ensures
        idx < CELL_COUNT ==> apply_to_cells(cells, Message::FillCell { idx, content })[idx as int]
            == content,
        forall|j: int|
            0 <= j < CELL_COUNT && j != idx ==> #[trigger] apply_to_cells(
                cells,
                Message::FillCell { idx, content },
            )[j] == cells[j],
        idx >= CELL_COUNT ==> apply_to_cells(cells, Message::FillCell { idx, content }) == cells,
{
}

} // verus!
