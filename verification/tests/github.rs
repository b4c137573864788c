use arena::github::{after_sign_in, authorize_url, bearer, check_oauth_state, OAuthStateError};

#[test]
fn authorize_url_encodes_the_redirect() {
    assert_eq!(
        authorize_url(
            "https://github.com/login/oauth/authorize",
            "abc",
            "http://localhost:3000/auth/github/callback",
            "s1"
        ),
        "https://github.com/login/oauth/authorize?client_id=abc&redirect_uri=http%3A%2F%2Flocalhost%3A3000%2Fauth%2Fgithub%2Fcallback&state=s1&scope=user:email"
    );
}

#[test]
fn callback_state_must_match_the_session() {
    assert_eq!(check_oauth_state(&None, "x"), Err(OAuthStateError::Missing));
    assert_eq!(check_oauth_state(&Some("abc".to_string()), "abd"), Err(OAuthStateError::Mismatch));
    assert_eq!(check_oauth_state(&Some("abc".to_string()), "abc"), Ok(()));
    assert_eq!(OAuthStateError::Missing.message(), "GitHub OAuth state not found in session");
    assert_eq!(OAuthStateError::Mismatch.message(), "GitHub OAuth state mismatch");
}

#[test]
fn sign_in_goes_to_the_token_page_for_the_cli() {
    assert_eq!(after_sign_in(true, "s3cr3t"), "/auth/cli-token?token=s3cr3t");
    assert_eq!(after_sign_in(false, "s3cr3t"), "/");
    assert_eq!(bearer("tok"), "Bearer tok");
}
