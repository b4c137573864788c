use arena::mock_oauth::{MockOAuthState, MockUserConfig};

fn user(id: i64, login: &str) -> MockUserConfig {
    MockUserConfig {
        id,
        login: login.to_string(),
        name: None,
        email: Some(format!("{login}@example.com")),
        avatar_url: "https://example.com/a.png".to_string(),
    }
}

#[test]
fn mock_user_defaults() {
    let u = MockUserConfig::default();
    assert_eq!(u.id, 12345);
    assert_eq!(u.login, "mock_user");
    assert_eq!(u.name.as_deref(), Some("Mock User"));
}

#[test]
fn code_is_exchanged_once_for_its_user() {
    let mut state = MockOAuthState::new();
    state.store_code("abc".to_string(), user(7, "octo"));
    let (token, u) = state.exchange_code_with("abc", "tok-1".to_string()).expect("stored code");
    assert_eq!(token, "tok-1");
    assert_eq!(u.id, 7);
    assert_eq!(state.get_user("tok-1").map(|u| u.login), Some("octo".to_string()));
    assert!(state.exchange_code_with("abc", "tok-2".to_string()).is_none());
    assert!(state.get_user("tok-2").is_none());
}

#[test]
fn unknown_code_gives_nothing() {
    let mut state = MockOAuthState::new();
    assert!(state.exchange_code("nope").is_none());
    assert!(state.get_user("nope").is_none());
}

#[test]
fn storing_a_code_again_replaces_its_user() {
    let mut state = MockOAuthState::new();
    state.store_code("c".to_string(), user(1, "first"));
    state.store_code("c".to_string(), user(2, "second"));
    assert_eq!(state.codes.len(), 1);
    let (token, u) = state.exchange_code("c").expect("stored code");
    assert_eq!(u.id, 2);
    assert!(token.starts_with("mock_token_"));
    assert_eq!(token.len(), "mock_token_".len() + 36);
    assert_eq!(state.get_user(&token).map(|u| u.id), Some(2));
}
