use game_hub::client::input::{GameInput, Input, KeyCode, KeyResult, Mode};
use game_hub::client::model::Model;
use game_hub::messaging::ServerMessage;
use game_hub::plugins::tick_tack_toe::{Cell, Message, CELL_COUNT};
use game_hub::plugins::{ClientState, PluginType};

fn type_text(input: &mut Input, text: &str) {
    for c in text.chars() {
        if c == '\n' {
            input.on_key_press(KeyCode::Enter);
        } else {
            input.on_key_press(KeyCode::Char(c));
        }
    }
}

#[test]
fn model_starts_empty() {
    let m = Model::new("ben");
    assert_eq!(m.username, "ben");
    assert!(m.active_games.is_empty());
    assert!(m.current_game.is_none());
    assert!(m.chat_history.is_empty());
    assert!(m.chat_input.is_empty());
    assert_eq!(m.chat_error, "");
    let i = Input::new("ben");
    assert_eq!(i.mode, Mode::Idle);
    assert_eq!(i.game_input_state, GameInput::Idle);
}

#[test]
fn letters_pick_modes_and_esc_leaves_them() {
    let mut i = Input::new("ben");
    assert!(matches!(i.on_key_press(KeyCode::Char('c')), KeyResult::Nothing));
    assert_eq!(i.mode, Mode::Chat);
    assert!(matches!(i.on_key_press(KeyCode::Esc), KeyResult::Nothing));
    assert_eq!(i.mode, Mode::Idle);
    i.on_key_press(KeyCode::Char('p'));
    assert_eq!(i.mode, Mode::PlayGame);
    i.on_key_press(KeyCode::Esc);
    i.on_key_press(KeyCode::Char('l'));
    assert_eq!(i.mode, Mode::GameListing { selected_game_id: 0 });
    i.on_key_press(KeyCode::Esc);
    i.on_key_press(KeyCode::Char('n'));
    assert_eq!(i.mode, Mode::NewGame(PluginType::TickTackToe));
    i.on_key_press(KeyCode::Esc);
    assert!(matches!(i.on_key_press(KeyCode::Char('x')), KeyResult::Nothing));
    assert_eq!(i.mode, Mode::Idle);
    assert!(matches!(i.on_key_press(KeyCode::Char('q')), KeyResult::Quit));
}

#[test]
fn chat_editing_and_sending() {
    let mut i = Input::new("ben");
    i.on_key_press(KeyCode::Char('c'));
    type_text(&mut i, "abdullah@hel");
    i.on_key_press(KeyCode::Enter);
    type_text(&mut i, "lx");
    i.on_key_press(KeyCode::Backspace);
    assert_eq!(i.model.chat_input, vec!["abdullah@hel".to_string(), "l".to_string()]);
    match i.on_key_press(KeyCode::Tab) {
        KeyResult::SendChat(m) => {
            assert_eq!(m.username, "abdullah");
            assert_eq!(m.message, "hel\nl");
        }
        _ => panic!("expected a chat message"),
    }
    assert!(i.model.chat_input.is_empty());
    // Backspace on an empty line removes the line.
    i.on_key_press(KeyCode::Enter);
    i.on_key_press(KeyCode::Enter);
    i.on_key_press(KeyCode::Backspace);
    assert_eq!(i.model.chat_input, vec![String::new()]);
}

#[test]
fn chat_errors() {
    let mut i = Input::new("ben");
    i.on_key_press(KeyCode::Char('c'));
    i.model.chat_error = "old".to_string();
    assert!(matches!(i.on_key_press(KeyCode::Tab), KeyResult::Nothing));
    assert_eq!(i.model.chat_error, "");
    type_text(&mut i, "hello");
    assert!(i.take_chat_message().is_none());
    assert_eq!(i.model.chat_error, "invalid message format, please use <recipient>@<message>");
    i.model.chat_input.clear();
    type_text(&mut i, "ben@hi");
    assert!(i.take_chat_message().is_none());
    assert_eq!(i.model.chat_error, "Sender can't a message to themselves!");
    assert_eq!(i.model.chat_input, vec!["ben@hi".to_string()]);
    i.model.chat_input = vec!["@a@b".to_string()];
    let m = i.take_chat_message().unwrap();
    assert_eq!(m.username, "");
    assert_eq!(m.message, "a@b");
}

#[test]
fn game_listing_cycles_and_enters() {
    let mut i = Input::new("ben");
    i.model.active_games = vec![(5, PluginType::TickTackToe), (7, PluginType::TickTackToe), (9, PluginType::TickTackToe)];
    i.on_key_press(KeyCode::Char('l'));
    assert_eq!(i.mode, Mode::GameListing { selected_game_id: 5 });
    i.on_key_press(KeyCode::Up);
    assert_eq!(i.mode, Mode::GameListing { selected_game_id: 7 });
    i.on_key_press(KeyCode::Down);
    i.on_key_press(KeyCode::Down);
    assert_eq!(i.mode, Mode::GameListing { selected_game_id: 9 });
    i.on_key_press(KeyCode::Up);
    assert_eq!(i.mode, Mode::GameListing { selected_game_id: 5 });
    assert!(matches!(i.on_key_press(KeyCode::Enter), KeyResult::EnterGame { game_id: 5 }));
    assert_eq!(i.mode, Mode::Idle);
    // An unknown selection counts as the first game.
    i.mode = Mode::GameListing { selected_game_id: 100 };
    i.on_key_press(KeyCode::Up);
    assert_eq!(i.mode, Mode::GameListing { selected_game_id: 7 });
}

#[test]
fn new_game_mode() {
    let mut i = Input::new("ben");
    i.on_key_press(KeyCode::Char('n'));
    i.on_key_press(KeyCode::Up);
    assert_eq!(i.mode, Mode::NewGame(PluginType::TickTackToe));
    i.on_key_press(KeyCode::Down);
    assert!(matches!(i.on_key_press(KeyCode::Enter), KeyResult::NewGame(PluginType::TickTackToe)));
    assert_eq!(i.mode, Mode::Idle);
}

#[test]
fn playing_moves_the_cursor_and_sends_moves() {
    let mut i = Input::new("ben");
    i.recv_server_msg(
        ServerMessage::GameEntered { game_id: 3, plugin_type: PluginType::TickTackToe, game_state_msg: String::new() },
        Ok(Message::GameState { player_cell: Cell::Cross, cells: [Cell::Empty; CELL_COUNT] }),
    );
    assert_eq!(i.game_input_state, GameInput::TickTackToe { selected_cell: 0 });
    i.on_key_press(KeyCode::Char('p'));
    i.on_key_press(KeyCode::Up);
    assert_eq!(i.game_input_state, GameInput::TickTackToe { selected_cell: 6 });
    i.on_key_press(KeyCode::Left);
    assert_eq!(i.game_input_state, GameInput::TickTackToe { selected_cell: 8 });
    i.on_key_press(KeyCode::Right);
    assert_eq!(i.game_input_state, GameInput::TickTackToe { selected_cell: 6 });
    i.on_key_press(KeyCode::Down);
    assert_eq!(i.game_input_state, GameInput::TickTackToe { selected_cell: 0 });
    i.on_key_press(KeyCode::Right);
    i.on_key_press(KeyCode::Down);
    assert_eq!(i.game_input_state, GameInput::TickTackToe { selected_cell: 4 });
    match i.on_key_press(KeyCode::Enter) {
        KeyResult::SendGameMsg { game_id, msg } => {
            assert_eq!(game_id, 3);
            assert_eq!(msg, "{\"FillCell\":{\"idx\":4,\"content\":\"Cross\"}}");
        }
        _ => panic!("expected a move"),
    }
}

#[test]
fn playing_without_a_game_does_nothing() {
    let mut i = Input::new("ben");
    i.on_key_press(KeyCode::Char('p'));
    assert!(matches!(i.on_key_press(KeyCode::Enter), KeyResult::Nothing));
    assert_eq!(i.game_input_state, GameInput::Idle);
}

#[test]
fn server_messages_update_the_model() {
    let mut i = Input::new("ben");
    let none = || Err::<Message, String>(String::new());
    i.recv_server_msg(ServerMessage::NewGameCreated { game_id: 1, plugin_type: PluginType::TickTackToe }, none());
    i.recv_server_msg(ServerMessage::NewGameCreated { game_id: 2, plugin_type: PluginType::TickTackToe }, none());
    i.recv_server_msg(ServerMessage::NewGameCreated { game_id: 1, plugin_type: PluginType::TickTackToe }, none());
    assert_eq!(i.model.active_games, vec![(2, PluginType::TickTackToe), (1, PluginType::TickTackToe)]);
    i.recv_server_msg(ServerMessage::RecvChatMessage { from: "abdullah".to_string(), message: "yo".to_string() }, none());
    assert_eq!(i.model.chat_history.len(), 1);
    assert_eq!(i.model.chat_history[0].username, "abdullah");
    assert_eq!(i.model.chat_history[0].message, "yo");
    i.recv_server_msg(
        ServerMessage::GameEntered { game_id: 2, plugin_type: PluginType::TickTackToe, game_state_msg: String::new() },
        Err("bad".to_string()),
    );
    i.recv_server_msg(
        ServerMessage::GameUpdate { game_id: 2, msg: String::new() },
        Ok(Message::FillCell { idx: 8, content: Cell::Nought }),
    );
    i.recv_server_msg(
        ServerMessage::GameUpdate { game_id: 1, msg: String::new() },
        Ok(Message::FillCell { idx: 0, content: Cell::Nought }),
    );
    let (id, ClientState::TickTackToe(t)) = i.model.current_game.as_ref().unwrap();
    assert_eq!(*id, 2);
    assert_eq!(t.player_cell(), Cell::Empty);
    let mut expected = [Cell::Empty; CELL_COUNT];
    expected[8] = Cell::Nought;
    assert_eq!(t.get_cells(), expected);
    i.recv_server_msg(ServerMessage::LoginSuccess, none());
    assert_eq!(i.model.active_games.len(), 2);
}
