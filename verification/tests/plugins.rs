use game_hub::plugins::tick_tack_toe::{self, Cell, Message, CELL_COUNT};
use game_hub::plugins::{ClientState, EvaluateResult, PluginType, ServerPlugin};

#[test]
fn plugin_types_cycle() {
    let p = PluginType::TickTackToe;
    assert_eq!(PluginType::get_all(), &[PluginType::TickTackToe]);
    assert_eq!(p.next(), PluginType::TickTackToe);
    assert_eq!(p.prev(), PluginType::TickTackToe);
    assert_eq!(p.next().prev(), p);
    assert_eq!(p.prev().next(), p);
    assert_eq!(p.to_string(), "TickTackToe");
}

#[test]
fn new_client_has_empty_board() {
    let ClientState::TickTackToe(c) = PluginType::TickTackToe.new_client();
    assert_eq!(c.player_cell(), Cell::Empty);
    assert_eq!(c.get_cells(), [Cell::Empty; CELL_COUNT]);
}

#[test]
fn client_takes_moves_and_states() {
    let mut c = tick_tack_toe::ClientState::new(Cell::Cross);
    assert!(c.can_place_at(4));
    assert_eq!(c.recv_msg(Ok(Message::FillCell { idx: 4, content: Cell::Nought })), Ok(()));
    assert!(!c.can_place_at(4));
    assert_eq!(c.get_cells()[4], Cell::Nought);
    // A move off the board changes nothing.
    assert_eq!(c.recv_msg(Ok(Message::FillCell { idx: 9, content: Cell::Cross })), Ok(()));
    assert!(!c.can_place_at(9));
    let mut expected = [Cell::Empty; CELL_COUNT];
    expected[4] = Cell::Nought;
    assert_eq!(c.get_cells(), expected);
    // A decoding error comes back with its prefix, and changes nothing.
    assert_eq!(
        c.recv_msg(Err("expected value at line 1 column 1".to_string())),
        Err("Failed to decode msg: expected value at line 1 column 1".to_string())
    );
    assert_eq!(c.get_cells(), expected);
    // A whole state replaces the board and the piece.
    let cells = [Cell::Cross; CELL_COUNT];
    assert_eq!(c.recv_msg(Ok(Message::GameState { player_cell: Cell::Nought, cells })), Ok(()));
    assert_eq!(c.player_cell(), Cell::Nought);
    assert_eq!(c.get_cells(), cells);
    assert!(!c.can_place_at(0));
}

#[test]
fn request_move_msg_is_a_fill_cell_with_the_players_piece() {
    let c = tick_tack_toe::ClientState::new(Cell::Cross);
    assert_eq!(c.request_move_msg(4), "{\"FillCell\":{\"idx\":4,\"content\":\"Cross\"}}");
    let c = tick_tack_toe::ClientState::new(Cell::Nought);
    assert_eq!(c.request_move_msg(10), "{\"FillCell\":{\"idx\":10,\"content\":\"Nought\"}}");
}

#[test]
fn message_text() {
    let mut cells = [Cell::Empty; CELL_COUNT];
    cells[0] = Cell::Cross;
    cells[8] = Cell::Nought;
    assert_eq!(
        Message::GameState { player_cell: Cell::Nought, cells }.serialize(),
        "{\"GameState\":{\"player_cell\":\"Nought\",\"cells\":[\"Cross\",\"Empty\",\"Empty\",\"Empty\",\"Empty\",\"Empty\",\"Empty\",\"Empty\",\"Nought\"]}}"
    );
    assert_eq!(
        Message::FillCell { idx: 0, content: Cell::Empty }.serialize(),
        "{\"FillCell\":{\"idx\":0,\"content\":\"Empty\"}}"
    );
}

#[test]
fn plugin_client_state_ignores_bad_messages() {
    let mut c = PluginType::TickTackToe.new_client();
    c.recv_msg(Err("bad".to_string()));
    c.recv_msg(Ok(Message::FillCell { idx: 2, content: Cell::Cross }));
    let ClientState::TickTackToe(t) = c;
    assert_eq!(t.get_cells()[2], Cell::Cross);
}

#[test]
fn server_seats_two_players() {
    let mut s = tick_tack_toe::new_server();
    assert!(!s.has_user("ben"));
    let empty_state =
        Message::GameState { player_cell: Cell::Nought, cells: [Cell::Empty; CELL_COUNT] }.serialize();
    assert_eq!(s.get_state_msg_for_user("ben"), Ok(empty_state.clone()));
    assert!(s.has_user("ben"));
    // Asking again gives the same piece.
    assert_eq!(s.get_state_msg_for_user("ben"), Ok(empty_state));
    let cross_state =
        Message::GameState { player_cell: Cell::Cross, cells: [Cell::Empty; CELL_COUNT] }.serialize();
    assert_eq!(s.get_state_msg_for_user("abdullah"), Ok(cross_state));
    assert_eq!(s.get_state_msg_for_user("joe"), Err("Game is full".to_string()));
    assert!(!s.has_user("joe"));
    assert!(matches!(s.evaluate_state(), EvaluateResult::Running));
}

#[test]
fn server_applies_moves_and_echoes_them() {
    let mut s = PluginType::TickTackToe.new_server();
    let text = "{\"FillCell\":{\"idx\":3,\"content\":\"Cross\"}}";
    assert_eq!(
        s.recv_msg(text, Ok(Message::FillCell { idx: 3, content: Cell::Cross })),
        Ok(text.to_string())
    );
    assert_eq!(s.recv_msg("zz", Err("oops".to_string())), Err("Failed to decode msg: oops".to_string()));
    let mut cells = [Cell::Empty; CELL_COUNT];
    cells[3] = Cell::Cross;
    assert_eq!(
        s.get_state_msg_for_user("ben"),
        Ok(Message::GameState { player_cell: Cell::Nought, cells }.serialize())
    );
    // A whole state sent to the server is passed on but changes nothing.
    let st = Message::GameState { player_cell: Cell::Nought, cells: [Cell::Nought; CELL_COUNT] };
    assert_eq!(s.recv_msg("t", Ok(st)), Ok("t".to_string()));
    assert_eq!(
        s.get_state_msg_for_user("ben"),
        Ok(Message::GameState { player_cell: Cell::Nought, cells }.serialize())
    );
}
