use arena::api_token::{
    bearer_token, generate_token_secret, hash_token, request_token_hash, ApiToken, AuthHeaderError,
    TokenResponse,
};

#[test]
fn test_generate_token_secret_length() {
    let secret = generate_token_secret();
    assert_eq!(secret.len(), 64);
    assert!(secret.chars().all(|c| c.is_ascii_hexdigit() && !c.is_ascii_uppercase()));
}

#[test]
fn test_generate_token_secret_is_random() {
    let secret1 = generate_token_secret();
    let secret2 = generate_token_secret();
    assert_ne!(secret1, secret2);
}

#[test]
fn test_hash_token_consistency() {
    let secret = "test_secret_value";
    assert_eq!(hash_token(secret), hash_token(secret));
}

#[test]
fn test_hash_token_length() {
    assert_eq!(hash_token("test").len(), 64);
}

#[test]
fn hash_token_is_sha256_in_lowercase_hex() {
    assert_eq!(
        hash_token(""),
        "e3b0c44298fc1c149afbf4c8996fb92427ae41e4649b934ca495991b7852b855"
    );
    assert_eq!(
        hash_token("abc"),
        "ba7816bf8f01cfea414140de5dae2223b00361a396177a9cb410ff61f20015ad"
    );
}

#[test]
fn bearer_header_gives_the_token() {
    assert_eq!(bearer_token(Some("Bearer abc")), Ok("abc"));
    assert_eq!(bearer_token(Some("Bearer ")), Ok(""));
    assert_eq!(bearer_token(Some("bearer abc")), Err(AuthHeaderError::NotBearer));
    assert_eq!(bearer_token(Some("Basic abc")), Err(AuthHeaderError::NotBearer));
    assert_eq!(bearer_token(None), Err(AuthHeaderError::Missing));
    assert_eq!(request_token_hash(Some("Bearer abc")).unwrap(), hash_token("abc"));
    assert_eq!(AuthHeaderError::Missing.message(), "Missing Authorization header");
    assert_eq!(
        AuthHeaderError::NotBearer.message(),
        "Invalid Authorization header format, expected 'Bearer <token>'"
    );
}

#[test]
fn token_listing_hides_owner_hash_and_revocation() {
    let token = ApiToken {
        id: 11,
        user_id: 22,
        token_hash: hash_token("secret"),
        name: "laptop".to_string(),
        last_used_at: Some(33),
        created_at: 44,
        revoked_at: None,
    };
    let r = TokenResponse::from(token);
    assert_eq!(r.id, 11);
    assert_eq!(r.name, "laptop");
    assert_eq!(r.last_used_at, Some(33));
    assert_eq!(r.created_at, 44);
}
