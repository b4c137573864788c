//! The battlesnake and token API requests: checking a snake's URL and
//! turning requests into the records that are stored.

use vstd::prelude::*;

use crate::models::{Battlesnake, CreateBattlesnake, UpdateBattlesnake, Visibility};
use crate::text::str_equals;

verus! {

/// A snake as the API shows it: public or not in place of its visibility.
#[derive(Debug, Clone)]
pub struct SnakeResponse {
    pub id: u128,
    pub name: String,
    pub url: String,
    pub is_public: bool,
    pub created_at: i64,
    pub updated_at: i64,
}

/// The response for a stored snake.
pub open spec fn snake_response_of(snake: Battlesnake) -> SnakeResponse {
    SnakeResponse {
        id: snake.battlesnake_id,
        name: snake.name,
        url: snake.url,
        is_public: snake.visibility == Visibility::Public,
        created_at: snake.created_at,
        updated_at: snake.updated_at,
    }
}

impl From<Battlesnake> for SnakeResponse {
    fn from(snake: Battlesnake) -> (r: SnakeResponse) {
        SnakeResponse {
            id: snake.battlesnake_id,
            name: snake.name,
            url: snake.url,
            is_public: snake.visibility == Visibility::Public,
            created_at: snake.created_at,
            updated_at: snake.updated_at,
        }
    }
}

impl vstd::std_specs::convert::FromSpecImpl<Battlesnake> for SnakeResponse {
    open spec fn obeys_from_spec() -> bool {
        true
    }

    open spec fn from_spec(snake: Battlesnake) -> SnakeResponse {
        snake_response_of(snake)
    }
}

/// Request body for creating a snake.
#[derive(Debug, Clone)]
pub struct CreateSnakeRequest {
    pub name: String,
    pub url: String,
    pub is_public: bool,
}

/// Request body for updating a snake; absent fields keep their values.
#[derive(Debug, Clone)]
pub struct UpdateSnakeRequest {
    pub name: Option<String>,
    pub url: Option<String>,
    pub is_public: Option<bool>,
}

/// Request body for creating an API token.
#[derive(Debug, Clone)]
pub struct CreateTokenRequest {
    pub name: String,
}

/// The scheme of the URL `url::Url::parse` reads from a text, or none where
/// the text does not parse as a URL.
pub uninterp spec fn url_scheme(s: Seq<char>) -> Option<Seq<char>>;

/// Calls `url::Url::parse` and, for a URL, `Url::scheme`; the result is
/// named `url_scheme`.
#[verifier::external_body]
fn parsed_url_scheme(s: &str) -> (r: Option<String>)
    ensures
        match r {
            Some(v) => url_scheme(s@) == Some(v@),
            None => url_scheme(s@) is None,
        },
{
    match url::Url::parse(s) {
        Ok(u) => Some(u.scheme().to_string()),
        Err(_) => None,
    }
}

/// Whether a snake URL is accepted: it parses, with the scheme http or
/// https; otherwise the message it is refused with.
pub open spec fn url_check(s: Seq<char>) -> Result<(), Seq<char>> {
    match url_scheme(s) {
        None => Err("Invalid URL format"@),
        Some(scheme) => if scheme == "http"@ || scheme == "https"@ {
            Ok(())
        } else {
            Err("URL must use HTTP or HTTPS scheme"@)
        },
    }
}

/// Checks that a snake URL is a valid HTTP or HTTPS URL.
pub fn validate_url(url: &str) -> (r: Result<(), &'static str>)
    ensures
        match url_check(url@) {
            Ok(()) => r is Ok,
            Err(m) => r matches Err(e) && e@ == m,
        },
{
    match parsed_url_scheme(url) {
        Some(scheme) => {
            if str_equals(scheme.as_str(), "http") || str_equals(scheme.as_str(), "https") {
                Ok(())
            } else {
                Err("URL must use HTTP or HTTPS scheme")
            }
        },
        None => Err("Invalid URL format"),
    }
}

/// The visibility a public flag stands for.
pub open spec fn visibility_for(is_public: bool) -> Visibility {
    if is_public {
        Visibility::Public
    } else {
        Visibility::Private
    }
}

/// The battlesnake a create request makes, once its URL is accepted.
pub fn battlesnake_to_create(request: CreateSnakeRequest) -> (r: Result<
    CreateBattlesnake,
    &'static str,
>)
    ensures
        match url_check(request.url@) {
            Ok(()) => r matches Ok(c) && c.name@ == request.name@ && c.url@ == request.url@
                && c.visibility == visibility_for(request.is_public),
            Err(m) => r matches Err(e) && e@ == m,
        },
{
    match validate_url(request.url.as_str()) {
        Err(e) => Err(e),
        Ok(()) => Ok(
            CreateBattlesnake {
                name: request.name,
                url: request.url,
                visibility: if request.is_public {
                    Visibility::Public
                } else {
                    Visibility::Private
                },
            },
        ),
    }
}

/// The new values an update request gives a battlesnake: each field given
/// replaces the current one, and the resulting URL must be accepted.
pub fn battlesnake_update(
    name: String,
    url: String,
    visibility: Visibility,
    request: UpdateSnakeRequest,
) -> (r: Result<UpdateBattlesnake, &'static str>)
    ensures
        ({
            let new_url = match request.url {
                Some(u) => u@,
                None => url@,
            };
            match url_check(new_url) {
                Ok(()) => r matches Ok(c) && c.url@ == new_url && c.name@ == (match request.name {
                    Some(n) => n@,
                    None => name@,
                }) && c.visibility == (match request.is_public {
                    Some(p) => visibility_for(p),
                    None => visibility,
                }),
                Err(m) => r matches Err(e) && e@ == m,
            }
        }),
{
    let new_url = match request.url {
        Some(u) => u,
        None => url,
    };
    match validate_url(new_url.as_str()) {
        Err(e) => Err(e),
        Ok(()) => Ok(
            UpdateBattlesnake {
                name: match request.name {
                    Some(n) => n,
                    None => name,
                },
                url: new_url,
                visibility: match request.is_public {
                    Some(true) => Visibility::Public,
                    Some(false) => Visibility::Private,
                    None => visibility,
                },
            },
        ),
    }
}

} // verus!
