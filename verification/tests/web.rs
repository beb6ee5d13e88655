use game_hub::messaging::ServerMessage;
use game_hub::web::{Engine, Reaction};

#[test]
fn login_handshake() {
    let mut e: Engine<&str> = Engine::new("send");
    assert_eq!(*e.send_bytes(), "send");
    assert_eq!(
        e.send_login_req("ben", "ok", "fail"),
        Ok("{\"LoginRequest\":{\"username\":\"ben\"}}".to_string())
    );
    assert_eq!(e.send_login_req("ben", "ok2", "fail2"), Err("Invalid login status".to_string()));
    assert!(matches!(e.recv_server_msg(ServerMessage::LoginSuccess), Reaction::Schedule("ok")));
    assert!(matches!(e.recv_server_msg(ServerMessage::LoginSuccess), Reaction::InvalidLoginStatus));
    assert!(e.send_login_req("ben", "ok3", "fail3").is_ok());
    assert!(matches!(
        e.recv_server_msg(ServerMessage::LoginFailed { reason: "x".to_string() }),
        Reaction::Schedule("fail3")
    ));
}

#[test]
fn chat_goes_to_the_callback_once_set() {
    let mut e: Engine<u8> = Engine::new(0);
    let m = || ServerMessage::RecvChatMessage { from: "a".to_string(), message: "b".to_string() };
    assert!(matches!(e.recv_server_msg(m()), Reaction::Nothing));
    assert!(e.on_recv_chat_msg().is_none());
    e.set_on_recv_chat_msg(7);
    assert_eq!(e.on_recv_chat_msg(), Some(&7));
    match e.recv_server_msg(m()) {
        Reaction::Chat { from, message } => {
            assert_eq!(from, "a");
            assert_eq!(message, "b");
        }
        _ => panic!("expected a chat message"),
    }
    assert!(matches!(e.recv_server_msg(ServerMessage::GameUpdate { game_id: 0, msg: String::new() }), Reaction::Nothing));
}

#[test]
fn messages_to_send() {
    let e: Engine<u8> = Engine::new(0);
    assert_eq!(e.send_heartbeat(), Ok("\"HeartBeat\"".to_string()));
    assert_eq!(
        e.send_chat_msg("ben", "hi"),
        Ok("{\"SendChatMessage\":{\"recipient\":\"ben\",\"message\":\"hi\"}}".to_string())
    );
}
