use game_hub::messaging::{ClientMessage, ServerMessage};
use game_hub::plugins::tick_tack_toe::{Cell, Message, CELL_COUNT};
use game_hub::plugins::PluginType;
use game_hub::server::server::{LoginRefusal, Server};
use game_hub::server::users::LoginResult;

fn no_game_msg() -> Result<Message, String> {
    Err(String::new())
}

fn texts(d: &[(String, u32, ServerMessage)]) -> Vec<(String, u32, String)> {
    d.iter()
        .map(|(to, tx, m)| (to.clone(), *tx, String::from_utf8(m.serialise().unwrap()).unwrap()))
        .collect()
}

#[test]
fn login_and_logout_through_the_server() {
    let mut svr: Server<u32> = Server::new();
    assert_eq!(svr.login_user("ben", 1), Ok(()));
    assert_eq!(svr.login_user("ben", 2), Err(LoginResult::UserAlreadyLoggedIn));
    assert_eq!(svr.login_user("joe", 3), Err(LoginResult::UserNotFound));
    assert!(svr.logout_user("ben"));
    assert!(!svr.logout_user("ben"));
}

#[test]
fn new_games_are_announced_to_everyone() {
    let mut svr: Server<u32> = Server::new();
    svr.login_user("ben", 1).unwrap();
    svr.login_user("abdullah", 2).unwrap();
    let d = svr.recv_msg("ben", ClientMessage::RequestNewGame(PluginType::TickTackToe), no_game_msg());
    let m = "{\"NewGameCreated\":{\"game_id\":0,\"plugin_type\":\"TickTackToe\"}}".to_string();
    assert_eq!(texts(&d), vec![("ben".to_string(), 1, m.clone()), ("abdullah".to_string(), 2, m)]);
    let d = svr.recv_msg("ben", ClientMessage::RequestNewGame(PluginType::TickTackToe), no_game_msg());
    assert!(texts(&d)[0].2.contains("\"game_id\":1"));
}

#[test]
fn entering_a_game_sends_its_state_to_the_user() {
    let mut svr: Server<u32> = Server::new();
    svr.login_user("ben", 1).unwrap();
    svr.login_user("abdullah", 2).unwrap();
    svr.recv_msg("ben", ClientMessage::RequestNewGame(PluginType::TickTackToe), no_game_msg());
    let d = svr.recv_msg("abdullah", ClientMessage::RequestEnterGame { game_id: 0 }, no_game_msg());
    let state = Message::GameState { player_cell: Cell::Nought, cells: [Cell::Empty; CELL_COUNT] }.serialize();
    let expected = ServerMessage::GameEntered {
        game_id: 0,
        plugin_type: PluginType::TickTackToe,
        game_state_msg: state,
    };
    assert_eq!(
        texts(&d),
        vec![("abdullah".to_string(), 2, String::from_utf8(expected.serialise().unwrap()).unwrap())]
    );
    assert!(svr.recv_msg("ben", ClientMessage::RequestEnterGame { game_id: 9 }, no_game_msg()).is_empty());
}

#[test]
fn moves_are_broadcast_only_when_they_decode() {
    let mut svr: Server<u32> = Server::new();
    svr.login_user("ben", 1).unwrap();
    svr.recv_msg("ben", ClientMessage::RequestNewGame(PluginType::TickTackToe), no_game_msg());
    let text = "{\"FillCell\":{\"idx\":1,\"content\":\"Cross\"}}".to_string();
    let d = svr.recv_msg(
        "ben",
        ClientMessage::RequestGameUpdate { game_id: 0, msg: text.clone() },
        Ok(Message::FillCell { idx: 1, content: Cell::Cross }),
    );
    assert_eq!(d.len(), 1);
    assert!(matches!(&d[0].2, ServerMessage::GameUpdate { game_id: 0, msg } if *msg == text));
    let d = svr.recv_msg(
        "ben",
        ClientMessage::RequestGameUpdate { game_id: 0, msg: "nonsense".to_string() },
        Err("expected value".to_string()),
    );
    assert!(d.is_empty());
    let d = svr.recv_msg(
        "ben",
        ClientMessage::RequestGameUpdate { game_id: 4, msg: text.clone() },
        Ok(Message::FillCell { idx: 1, content: Cell::Cross }),
    );
    assert!(d.is_empty());
}

#[test]
fn chat_goes_to_recipient_and_sender() {
    let mut svr: Server<u32> = Server::new();
    svr.login_user("ben", 1).unwrap();
    svr.login_user("abdullah", 2).unwrap();
    let d = svr.recv_msg(
        "ben",
        ClientMessage::SendChatMessage { recipient: "abdullah".to_string(), message: "hi".to_string() },
        no_game_msg(),
    );
    let m = "{\"RecvChatMessage\":{\"from\":\"ben\",\"message\":\"hi\"}}".to_string();
    assert_eq!(texts(&d), vec![("abdullah".to_string(), 2, m.clone()), ("ben".to_string(), 1, m.clone())]);
    let d = svr.recv_msg(
        "ben",
        ClientMessage::SendChatMessage { recipient: "joe".to_string(), message: "hi".to_string() },
        no_game_msg(),
    );
    assert_eq!(texts(&d), vec![("ben".to_string(), 1, m)]);
    assert!(svr.recv_msg("ben", ClientMessage::HeartBeat, no_game_msg()).is_empty());
    assert!(svr
        .recv_msg("ben", ClientMessage::LoginRequest { username: "ben".to_string() }, no_game_msg())
        .is_empty());
}

#[test]
fn the_first_message_must_be_a_login_request() {
    let mut svr: Server<u32> = Server::new();
    assert!(matches!(svr.login_sequence(ClientMessage::HeartBeat, 1), Err(LoginRefusal::NotALoginRequest)));
    assert_eq!(
        svr.login_sequence(ClientMessage::LoginRequest { username: "ben".to_string() }, 1).unwrap(),
        "ben"
    );
    assert!(matches!(
        svr.login_sequence(ClientMessage::LoginRequest { username: "ben".to_string() }, 2),
        Err(LoginRefusal::Refused(LoginResult::UserAlreadyLoggedIn))
    ));
    assert!(matches!(
        svr.login_sequence(ClientMessage::LoginRequest { username: "joe".to_string() }, 3),
        Err(LoginRefusal::Refused(LoginResult::UserNotFound))
    ));
}
