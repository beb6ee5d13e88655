use game_hub::messaging::{serialise, serialise_string, ClientMessage, ServerMessage};
use game_hub::plugins::PluginType;

#[test]
fn xxxx() {
    println!(
        "{}",
        String::from_utf8(
            ServerMessage::RecvChatMessage {
                from: "Ben".to_string(),
                message: "Hidy ho".to_string(),
            }
            .serialise()
            .unwrap()
        )
        .unwrap()
    );
}

fn server_text(m: &ServerMessage) -> String {
    String::from_utf8(m.serialise().unwrap()).unwrap()
}

#[test]
fn server_messages_have_serde_json_text() {
    assert_eq!(server_text(&ServerMessage::LoginSuccess), "\"LoginSuccess\"");
    assert_eq!(
        server_text(&ServerMessage::LoginFailed { reason: "no".to_string() }),
        "{\"LoginFailed\":{\"reason\":\"no\"}}"
    );
    assert_eq!(
        server_text(&ServerMessage::RecvChatMessage {
            from: "Ben".to_string(),
            message: "Hidy ho".to_string(),
        }),
        "{\"RecvChatMessage\":{\"from\":\"Ben\",\"message\":\"Hidy ho\"}}"
    );
    assert_eq!(
        server_text(&ServerMessage::NewGameCreated { game_id: 0, plugin_type: PluginType::TickTackToe }),
        "{\"NewGameCreated\":{\"game_id\":0,\"plugin_type\":\"TickTackToe\"}}"
    );
    assert_eq!(
        server_text(&ServerMessage::GameEntered {
            game_id: 12,
            plugin_type: PluginType::TickTackToe,
            game_state_msg: "{\"a\":1}".to_string(),
        }),
        "{\"GameEntered\":{\"game_id\":12,\"plugin_type\":\"TickTackToe\",\"game_state_msg\":\"{\\\"a\\\":1}\"}}"
    );
    assert_eq!(
        server_text(&ServerMessage::GameUpdate { game_id: u64::MAX, msg: "x".to_string() }),
        "{\"GameUpdate\":{\"game_id\":18446744073709551615,\"msg\":\"x\"}}"
    );
}

#[test]
fn client_messages_have_serde_json_text() {
    assert_eq!(ClientMessage::HeartBeat.serialise_string().unwrap(), "\"HeartBeat\"");
    assert_eq!(
        ClientMessage::LoginRequest { username: "ben".to_string() }.serialise_string().unwrap(),
        "{\"LoginRequest\":{\"username\":\"ben\"}}"
    );
    assert_eq!(
        ClientMessage::SendChatMessage { recipient: "abdullah".to_string(), message: "hi".to_string() }
            .serialise_string()
            .unwrap(),
        "{\"SendChatMessage\":{\"recipient\":\"abdullah\",\"message\":\"hi\"}}"
    );
    assert_eq!(
        ClientMessage::RequestNewGame(PluginType::TickTackToe).serialise_string().unwrap(),
        "{\"RequestNewGame\":\"TickTackToe\"}"
    );
    assert_eq!(
        ClientMessage::RequestEnterGame { game_id: 7 }.serialise_string().unwrap(),
        "{\"RequestEnterGame\":{\"game_id\":7}}"
    );
    assert_eq!(
        ClientMessage::RequestGameUpdate { game_id: 1234567890, msg: "m".to_string() }
            .serialise_string()
            .unwrap(),
        "{\"RequestGameUpdate\":{\"game_id\":1234567890,\"msg\":\"m\"}}"
    );
}

#[test]
fn strings_are_escaped_as_serde_json_escapes_them() {
    let reason = "quote \" backslash \\ newline \n tab \t bell \u{7} é";
    let expected = format!(
        "{{\"LoginFailed\":{{\"reason\":{}}}}}",
        serde_json::to_string(reason).unwrap()
    );
    assert_eq!(server_text(&ServerMessage::LoginFailed { reason: reason.to_string() }), expected);
    assert_eq!(
        server_text(&ServerMessage::LoginFailed { reason: "a\"b\nc".to_string() }),
        "{\"LoginFailed\":{\"reason\":\"a\\\"b\\nc\"}}"
    );
}

#[test]
fn serialise_gives_utf8_of_serialise_string() {
    let m = ClientMessage::SendChatMessage { recipient: "bé".to_string(), message: "ü".to_string() };
    assert_eq!(serialise(&m).unwrap(), serialise_string(&m).unwrap().into_bytes());
    assert_eq!(m.serialise().unwrap(), m.serialise_string().unwrap().into_bytes());
}
