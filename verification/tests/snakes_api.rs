use arena::models::{Battlesnake, Visibility};
use arena::snakes_api::{
    battlesnake_to_create, battlesnake_update, validate_url, CreateSnakeRequest, SnakeResponse,
    UpdateSnakeRequest,
};

#[test]
fn snake_urls_must_be_http_or_https() {
    assert_eq!(validate_url("https://snake.example.com/api"), Ok(()));
    assert_eq!(validate_url("http://localhost:8080"), Ok(()));
    assert_eq!(validate_url("ftp://example.com"), Err("URL must use HTTP or HTTPS scheme"));
    assert_eq!(validate_url("not a url"), Err("Invalid URL format"));
}

#[test]
fn create_request_maps_the_public_flag() {
    let c = battlesnake_to_create(CreateSnakeRequest {
        name: "Nibbler".to_string(),
        url: "https://nibbler.test".to_string(),
        is_public: false,
    })
    .unwrap();
    assert_eq!(c.name, "Nibbler");
    assert_eq!(c.url, "https://nibbler.test");
    assert_eq!(c.visibility, Visibility::Private);
    let e = battlesnake_to_create(CreateSnakeRequest {
        name: "Bad".to_string(),
        url: "mailto:x@y.z".to_string(),
        is_public: true,
    });
    assert_eq!(e.unwrap_err(), "URL must use HTTP or HTTPS scheme");
}

#[test]
fn update_keeps_fields_that_are_not_given() {
    let u = battlesnake_update(
        "Old".to_string(),
        "https://old.test".to_string(),
        Visibility::Public,
        UpdateSnakeRequest { name: None, url: None, is_public: Some(false) },
    )
    .unwrap();
    assert_eq!(u.name, "Old");
    assert_eq!(u.url, "https://old.test");
    assert_eq!(u.visibility, Visibility::Private);
    let u = battlesnake_update(
        "Old".to_string(),
        "https://old.test".to_string(),
        Visibility::Private,
        UpdateSnakeRequest { name: Some("New".to_string()), url: Some("http://new.test".to_string()), is_public: None },
    )
    .unwrap();
    assert_eq!(u.name, "New");
    assert_eq!(u.url, "http://new.test");
    assert_eq!(u.visibility, Visibility::Private);
    let e = battlesnake_update(
        "Old".to_string(),
        "https://old.test".to_string(),
        Visibility::Private,
        UpdateSnakeRequest { name: None, url: Some("nope".to_string()), is_public: None },
    );
    assert_eq!(e.unwrap_err(), "Invalid URL format");
}

fn stored_snake(visibility: Visibility) -> Battlesnake {
    Battlesnake {
        battlesnake_id: 0x550e8400_e29b_41d4_a716_446655440000,
        user_id: 5,
        name: "Viper".to_string(),
        url: "https://viper.example.com".to_string(),
        visibility,
        created_at: 100,
        updated_at: 200,
    }
}

#[test]
fn snake_response_shows_public_snakes_as_public() {
    let r = SnakeResponse::from(stored_snake(Visibility::Public));
    assert!(r.is_public);
    assert_eq!(r.id, 0x550e8400_e29b_41d4_a716_446655440000);
    assert_eq!(r.name, "Viper");
    assert_eq!(r.url, "https://viper.example.com");
    assert_eq!((r.created_at, r.updated_at), (100, 200));
}

#[test]
fn snake_response_shows_private_snakes_as_not_public() {
    assert!(!SnakeResponse::from(stored_snake(Visibility::Private)).is_public);
}
