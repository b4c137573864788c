//! Signing in with GitHub: the OAuth request and callback values, the
//! authorization address, and verifying the state a callback returns.

use vstd::prelude::*;
use vstd::string::StringExecFns;

use crate::flash::{url_encode, url_encoded};
use crate::text::str_equals;

verus! {

/// The GitHub OAuth application settings.
#[derive(Clone, Debug)]
pub struct GitHubOAuthConfig {
    pub client_id: String,
    pub client_secret: String,
    pub redirect_uri: String,
}

/// The parameters GitHub calls back with.
#[derive(Debug)]
pub struct GitHubAuthParams {
    pub code: String,
    pub state: String,
}

/// GitHub's answer to the token exchange.
#[derive(Debug)]
pub struct GitHubTokenResponse {
    pub access_token: String,
    pub token_type: String,
    pub scope: String,
    pub refresh_token: Option<String>,
    pub expires_in: Option<i64>,
}

/// The GitHub user the token belongs to.
#[derive(Debug)]
pub struct GitHubUser {
    pub id: i64,
    pub login: String,
    pub name: Option<String>,
    pub email: Option<String>,
    pub avatar_url: String,
}

/// Whether a sign-in was started from the command-line tool.
#[derive(Debug, Clone, Copy, PartialEq, Eq, Structural)]
pub struct GitHubAuthQuery {
    pub cli: bool,
}

/// The token shown to a command-line user after signing in.
#[derive(Debug)]
pub struct CliTokenQuery {
    pub token: String,
}

/// The address a user is sent to to authorize the application, asking for
/// the `user:email` scope.
pub open spec fn authorize_url_text(
    oauth_url: Seq<char>,
    client_id: Seq<char>,
    redirect_uri: Seq<char>,
    state: Seq<char>,
) -> Seq<char> {
    oauth_url + "?client_id="@ + client_id + "&redirect_uri="@ + url_encoded(redirect_uri)
        + "&state="@ + state + "&scope=user:email"@
}

/// Builds the authorization address.
pub fn authorize_url(oauth_url: &str, client_id: &str, redirect_uri: &str, state: &str) -> (r:
    String)
    ensures
        r@ == authorize_url_text(oauth_url@, client_id@, redirect_uri@, state@),
{
    let mut r = String::from_str(oauth_url);
    r.append("?client_id=");
    r.append(client_id);
    r.append("&redirect_uri=");
    let encoded = url_encode(redirect_uri);
    r.append(encoded.as_str());
    r.append("&state=");
    r.append(state);
    r.append("&scope=user:email");
    r
}

/// Why a callback is refused.
#[derive(Debug, Clone, Copy, PartialEq, Eq, Structural)]
pub enum OAuthStateError {
    /// No sign-in was started in this session.
    Missing,
    /// The state does not match the one the sign-in started with.
    Mismatch,
}

impl OAuthStateError {
    pub fn message(&self) -> (r: &'static str)
        ensures
            r@ == match *self {
                OAuthStateError::Missing => "GitHub OAuth state not found in session"@,
                OAuthStateError::Mismatch => "GitHub OAuth state mismatch"@,
            },
    {
        match self {
            OAuthStateError::Missing => "GitHub OAuth state not found in session",
            OAuthStateError::Mismatch => "GitHub OAuth state mismatch",
        }
    }
}

/// A callback is accepted only with the state stored when the sign-in
/// started.
pub fn check_oauth_state(session_state: &Option<String>, returned: &str) -> (r: Result<
    (),
    OAuthStateError,
>)
    ensures
        match session_state {
            None => r == Err::<(), OAuthStateError>(OAuthStateError::Missing),
            Some(s) => if s@ == returned@ {
                r == Ok::<(), OAuthStateError>(())
            } else {
                r == Err::<(), OAuthStateError>(OAuthStateError::Mismatch)
            },
        },
{
    match session_state {
        None => Err(OAuthStateError::Missing),
        Some(s) => {
            if str_equals(s.as_str(), returned) {
                Ok(())
            } else {
                Err(OAuthStateError::Mismatch)
            }
        },
    }
}

/// Where a signed-in user goes: the token page for the command-line tool,
/// the home page otherwise.
pub fn after_sign_in(is_cli: bool, token_secret: &str) -> (r: String)
    ensures
        is_cli ==> r@ == "/auth/cli-token?token="@ + token_secret@,
        !is_cli ==> r@ == "/"@,
{
    if is_cli {
        let mut r = String::from_str("/auth/cli-token?token=");
        r.append(token_secret);
        r
    } else {
        String::from_str("/")
    }
}

/// The authorization header value for a GitHub access token.
pub fn bearer(token: &str) -> (r: String)
    ensures
        r@ == "Bearer "@ + token@,
{
    let mut r = String::from_str("Bearer ");
    r.append(token);
    r
}

} // verus!
