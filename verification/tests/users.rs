use game_hub::messaging::ServerMessage;
use game_hub::server::users::{LoginResult, LogoutResult, Users};
use tokio::sync::mpsc;

#[test]
fn test_login_logout() {
    let (tx, _) = mpsc::channel::<ServerMessage>(10);
    let mut users = Users::new();
    assert!(matches!(users.login_user("joe", tx.clone()), LoginResult::UserNotFound));

    assert!(!users.is_logged_in("ben"));
    assert!(matches!(users.login_user("ben", tx.clone()), LoginResult::Success));
    assert!(users.is_logged_in("ben"));
    assert!(matches!(users.login_user("ben", tx.clone()), LoginResult::UserAlreadyLoggedIn));

    assert!(matches!(users.logout_user("joe"), LogoutResult::UserNotFound));
    assert!(matches!(users.logout_user("ben"), LogoutResult::Success));
    assert!(matches!(users.logout_user("ben"), LogoutResult::UserNotLoggedIn));
}

#[test]
fn login_then_logout_restores_the_logged_in_users() {
    let mut users: Users<u32> = Users::new();
    assert_eq!(users.login_user("abdullah", 1), LoginResult::Success);
    assert_eq!(users.login_user("ben", 2), LoginResult::Success);
    assert_eq!(users.logout_user("ben"), LogoutResult::Success);
    assert!(!users.is_logged_in("ben"));
    assert!(users.is_logged_in("abdullah"));
    assert_eq!(users.get_user_tx("abdullah"), Some(1));
    assert_eq!(users.get_user_tx("ben"), None);
    assert_eq!(users.login_user("ben", 3), LoginResult::Success);
    assert_eq!(users.get_user_tx("ben"), Some(3));
    let all = users.get_all_users_tx();
    assert_eq!(all, vec![("abdullah".to_string(), 1), ("ben".to_string(), 3)]);
}

#[test]
fn names_are_case_sensitive_and_exact() {
    let mut users: Users<u8> = Users::new();
    assert_eq!(users.login_user("Ben", 0), LoginResult::UserNotFound);
    assert_eq!(users.login_user("be", 0), LoginResult::UserNotFound);
    assert_eq!(users.login_user("", 0), LoginResult::UserNotFound);
    assert_eq!(users.logout_user("abdullah"), LogoutResult::UserNotLoggedIn);
}
