use game_hub::plugins::tick_tack_toe::{Cell, Message};
use game_hub::plugins::{PluginType, ServerPlugin};
use game_hub::server::game_states::GameStates;

#[test]
fn new_games_get_rising_ids() {
    let mut gs = GameStates::new();
    assert!(gs.get_game(0).is_none());
    assert_eq!(gs.new_game(PluginType::TickTackToe), 0);
    assert_eq!(gs.new_game(PluginType::TickTackToe), 1);
    assert_eq!(gs.new_game(PluginType::TickTackToe), 2);
    let (pt, g) = gs.get_game(1).unwrap();
    assert_eq!(pt, PluginType::TickTackToe);
    assert!(!g.has_user("ben"));
    assert!(gs.get_game(3).is_none());
}

#[test]
fn changes_through_get_game_mut_stay_with_that_game() {
    let mut gs = GameStates::new();
    gs.new_game(PluginType::TickTackToe);
    gs.new_game(PluginType::TickTackToe);
    {
        let (_, g) = gs.get_game_mut(1).unwrap();
        assert!(g.get_state_msg_for_user("ben").is_ok());
        assert!(g.recv_msg("m", Ok(Message::FillCell { idx: 0, content: Cell::Cross })).is_ok());
    }
    assert!(gs.get_game(1).unwrap().1.has_user("ben"));
    assert!(!gs.get_game(0).unwrap().1.has_user("ben"));
    assert!(gs.get_game_mut(5).is_none());
}

#[test]
fn list_games_filters_by_player() {
    let mut gs = GameStates::new();
    gs.new_game(PluginType::TickTackToe);
    gs.new_game(PluginType::TickTackToe);
    gs.new_game(PluginType::TickTackToe);
    gs.get_game_mut(2).unwrap().1.get_state_msg_for_user("ben").unwrap();
    gs.get_game_mut(0).unwrap().1.get_state_msg_for_user("ben").unwrap();
    let all: Vec<u64> = gs.list_games(None).iter().map(|(id, _)| *id).collect();
    assert_eq!(all, vec![0, 1, 2]);
    let bens: Vec<u64> = gs.list_games(Some("ben")).iter().map(|(id, _)| *id).collect();
    assert_eq!(bens, vec![0, 2]);
    assert!(gs.list_games(Some("joe")).is_empty());
}
