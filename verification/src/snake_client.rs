//! Snake server protocol helpers: request bodies, move parsing, endpoint
//! URLs, which snakes to ask, and what a move request's outcome amounts to.

use vstd::prelude::*;
use vstd::string::{StrSliceExecFns, StringExecFns};

use crate::engine::rules::{details_kept, states};
use crate::engine::run::copy_snakes;
use crate::engine::wire::{copy_cells, BattleSnake, Board, Game, Move};
use crate::text::{lowercase, owned, str_equals, to_lowercase};

verus! {

/// A snake server's reply to a move request.
#[derive(Debug)]
pub struct MoveResponse {
    pub direction: String,
    pub shout: Option<String>,
}

/// A move request's outcome, with timing.
#[derive(Debug, Clone)]
pub struct MoveResult {
    pub snake_id: String,
    pub direction: Move,
    pub latency_ms: Option<i64>,
    pub timed_out: bool,
    pub shout: Option<String>,
}

/// The request body for a snake: the game as it stands, addressed to that
/// snake.
pub fn build_request_for_snake(game: &Game, snake: &BattleSnake) -> (r: Game)
    ensures
        r.you.id@ == snake.id@,
        r.you.name@ == snake.name@,
        r.you.head == snake.head,
        r.you.body@ == snake.body@,
        r.you.health == snake.health,
        r.you.shout == snake.shout,
        r.you.actual_length == snake.actual_length,
        r.board.width == game.board.width,
        r.board.height == game.board.height,
        r.board.food@ == game.board.food@,
        r.board.hazards@ == game.board.hazards@,
        states(r.board.snakes@) == states(game.board.snakes@),
        details_kept(game.board.snakes@, r.board.snakes@),
        r.turn == game.turn,
        r.game == game.game,
{
    Game {
        you: snake.duplicate(),
        board: Board {
            height: game.board.height,
            width: game.board.width,
            food: copy_cells(&game.board.food),
            snakes: copy_snakes(&game.board.snakes),
            hazards: copy_cells(&game.board.hazards),
        },
        turn: game.turn,
        game: game.game.duplicate(),
    }
}

/// The move a lowercased direction name stands for.
pub open spec fn move_from_lower(l: Seq<char>) -> Option<Move> {
    if l == "up"@ {
        Some(Move::Up)
    } else if l == "down"@ {
        Some(Move::Down)
    } else if l == "left"@ {
        Some(Move::Left)
    } else if l == "right"@ {
        Some(Move::Right)
    } else {
        None
    }
}

/// Parses a direction name, whatever its case.
pub fn parse_direction(s: &str) -> (r: Option<Move>)
    ensures
        r == move_from_lower(lowercase(s@)),
{
    let lower = to_lowercase(s);
    let l = lower.as_str();
    if str_equals(l, "up") {
        Some(Move::Up)
    } else if str_equals(l, "down") {
        Some(Move::Down)
    } else if str_equals(l, "left") {
        Some(Move::Left)
    } else if str_equals(l, "right") {
        Some(Move::Right)
    } else {
        None
    }
}

/// The text without the `c` characters at its end.
pub open spec fn trim_end_char(s: Seq<char>, c: char) -> Seq<char>
    decreases s.len(),
{
    if s.len() > 0 && s.last() == c {
        trim_end_char(s.drop_last(), c)
    } else {
        s
    }
}

/// Removes every trailing `c` (as `str::trim_end_matches` with a character).
pub fn trim_end_matches_char(s: &str, c: char) -> (r: &str)
    ensures
        r@ == trim_end_char(s@, c),
{
    let mut n = s.unicode_len();
    assert(s@.subrange(0, n as int) =~= s@);
    while n > 0 && s.get_char(n - 1) == c
        invariant
            n <= s@.len(),
            trim_end_char(s@.subrange(0, n as int), c) == trim_end_char(s@, c),
        decreases n,
    {
        assert(s@.subrange(0, n as int).drop_last() =~= s@.subrange(0, n - 1));
        n = n - 1;
    }
    s.substring_char(0, n)
}

/// The path of a URL after `url::Url::parse`, or none where the text does
/// not parse as a URL.
pub uninterp spec fn url_path(base: Seq<char>) -> Option<Seq<char>>;

/// The text of the URL parsed from `base` once its path is set to `path`
/// (`url::Url::set_path`, then formatting).
pub uninterp spec fn url_with_path(base: Seq<char>, path: Seq<char>) -> Seq<char>;

/// Calls `url::Url::parse` and, for a URL, `Url::path`; the result is named
/// `url_path`.
#[verifier::external_body]
fn parsed_url_path(base: &str) -> (r: Option<String>)
    ensures
        match r {
            Some(p) => url_path(base@) == Some(p@),
            None => url_path(base@) is None,
        },
{
    match url::Url::parse(base) {
        Ok(u) => Some(u.path().to_string()),
        Err(_) => None,
    }
}

/// Calls `url::Url::parse` on a text that parses, `Url::set_path` and
/// formats the URL; the result is named `url_with_path`.
#[verifier::external_body]
fn replace_url_path(base: &str, path: &str) -> (r: String)
    requires
        url_path(base@) is Some,
    ensures
        r@ == url_with_path(base@, path@),
{
    let mut u = url::Url::parse(base).unwrap();
    u.set_path(path);
    u.to_string()
}

/// The endpoint URL: for a base that parses as a URL, its path without
/// trailing slashes, a slash and the endpoint set as the new path (so query
/// parameters stay after it); otherwise the base without trailing slashes,
/// a slash and the endpoint.
pub open spec fn endpoint_url(base: Seq<char>, endpoint: Seq<char>) -> Seq<char> {
    match url_path(base) {
        Some(p) => url_with_path(base, trim_end_char(p, '/') + "/"@ + endpoint),
        None => trim_end_char(base, '/') + "/"@ + endpoint,
    }
}

/// Builds the URL of a snake endpoint ("move", "start", "end") from the
/// snake's base URL.
pub fn build_endpoint_url(base_url: &str, endpoint: &str) -> (r: String)
    ensures
        r@ == endpoint_url(base_url@, endpoint@),
{
    match parsed_url_path(base_url) {
        Some(path) => {
            let mut new_path = owned(trim_end_matches_char(path.as_str(), '/'));
            new_path.append("/");
            new_path.append(endpoint);
            replace_url_path(base_url, new_path.as_str())
        },
        None => {
            let mut r = owned(trim_end_matches_char(base_url, '/'));
            r.append("/");
            r.append(endpoint);
            r
        },
    }
}

/// How a move request ended.
#[derive(Debug)]
pub enum MoveOutcome {
    /// The snake answered with a readable body.
    Replied(MoveResponse),
    /// The snake answered, but the body was not a move.
    Unreadable,
    /// The request failed on the network.
    NetworkError,
    /// No answer came in time.
    TimedOut,
}

/// The move used when a snake gives none: its last move, or up.
pub open spec fn fallback_move(last: Option<Move>) -> Move {
    match last {
        Some(m) => m,
        None => Move::Up,
    }
}

/// The move result for a request's outcome: the parsed reply, or the
/// fallback move when the reply names no direction or does not come. A
/// timing is kept whenever the snake answered; failures and timeouts count
/// as timed out.
pub fn move_result(
    snake_id: &String,
    outcome: MoveOutcome,
    elapsed_ms: i64,
    last_direction: Option<Move>,
) -> (r: MoveResult)
    ensures
        r.snake_id@ == snake_id@,
        match outcome {
            MoveOutcome::Replied(resp) => {
                &&& r.direction == match move_from_lower(lowercase(resp.direction@)) {
                    Some(m) => m,
                    None => fallback_move(last_direction),
                }
                &&& r.latency_ms == Some(elapsed_ms)
                &&& !r.timed_out
                &&& r.shout == resp.shout
            },
            MoveOutcome::Unreadable => {
                &&& r.direction == fallback_move(last_direction)
                &&& r.latency_ms == Some(elapsed_ms)
                &&& !r.timed_out
                &&& r.shout is None
            },
            _ => {
                &&& r.direction == fallback_move(last_direction)
                &&& r.latency_ms is None
                &&& r.timed_out
                &&& r.shout is None
            },
        },
{
    let fallback = match last_direction {
        Some(m) => m,
        None => Move::Up,
    };
    match outcome {
        MoveOutcome::Replied(resp) => {
            let direction = match parse_direction(resp.direction.as_str()) {
                Some(m) => m,
                None => fallback,
            };
            MoveResult {
                snake_id: snake_id.clone(),
                direction,
                latency_ms: Some(elapsed_ms),
                timed_out: false,
                shout: resp.shout,
            }
        },
        MoveOutcome::Unreadable => MoveResult {
            snake_id: snake_id.clone(),
            direction: fallback,
            latency_ms: Some(elapsed_ms),
            timed_out: false,
            shout: None,
        },
        _ => MoveResult {
            snake_id: snake_id.clone(),
            direction: fallback,
            latency_ms: None,
            timed_out: true,
            shout: None,
        },
    }
}

/// The URL listed first for a snake id, if any.
pub open spec fn url_for(urls: Seq<(String, String)>, id: Seq<char>) -> Option<Seq<char>>
    decreases urls.len(),
{
    if urls.len() == 0 {
        None
    } else if urls[0].0@ == id {
        Some(urls[0].1@)
    } else {
        url_for(urls.drop_first(), id)
    }
}

/// The snakes to send a request to, in board order, each with its index on
/// the board and its URL: every snake that has a URL, and, with
/// `alive_only`, only those with health left.
pub open spec fn request_targets(
    snakes: Seq<BattleSnake>,
    urls: Seq<(String, String)>,
    alive_only: bool,
) -> Seq<(int, Seq<char>)>
    decreases snakes.len(),
{
    if snakes.len() == 0 {
        Seq::empty()
    } else {
        let rest = request_targets(snakes.drop_last(), urls, alive_only);
        let s = snakes.last();
        if alive_only && s.health <= 0 {
            rest
        } else {
            match url_for(urls, s.id@) {
                Some(u) => rest.push(((snakes.len() - 1) as int, u)),
                None => rest,
            }
        }
    }
}

/// The view of a list of targets.
pub open spec fn targets_view(t: Seq<(usize, String)>) -> Seq<(int, Seq<char>)> {
    t.map_values(|p: (usize, String)| (p.0 as int, p.1@))
}

/// The URL listed first for a snake id.
fn find_url(urls: &[(String, String)], id: &String) -> (r: Option<String>)
    ensures
        match r {
            Some(u) => url_for(urls@, id@) == Some(u@),
            None => url_for(urls@, id@) is None,
        },
{
    let n = urls.len();
    let mut k: usize = 0;
    assert(urls@.subrange(0, n as int) =~= urls@);
    while k < n
        invariant
            n == urls@.len(),
            k <= n,
            url_for(urls@.subrange(k as int, n as int), id@) == url_for(urls@, id@),
        decreases n - k,
    {
        assert(urls@.subrange(k as int, n as int).drop_first() =~= urls@.subrange(
            k + 1,
            n as int,
        ));
        if str_equals(urls[k].0.as_str(), id.as_str()) {
            return Some(urls[k].1.clone());
        }
        k = k + 1;
    }
    None
}

/// The snakes a request goes to, with their board index and URL; with
/// `alive_only` only snakes with health left are asked.
pub fn request_targets_for(
    game: &Game,
    snake_urls: &[(String, String)],
    alive_only: bool,
) -> (r: Vec<(usize, String)>)
    ensures
        targets_view(r@) == request_targets(game.board.snakes@, snake_urls@, alive_only),
{
    let snakes = &game.board.snakes;
    let n = snakes.len();
    let mut r: Vec<(usize, String)> = Vec::new();
    let mut i: usize = 0;
    while i < n
        invariant
            n == snakes@.len(),
            snakes@ == game.board.snakes@,
            i <= n,
            targets_view(r@) == request_targets(
                snakes@.subrange(0, i as int),
                snake_urls@,
                alive_only,
            ),
        decreases n - i,
    {
        let ghost before = r@;
        assert(snakes@.subrange(0, i + 1).drop_last() =~= snakes@.subrange(0, i as int));
        assert(snakes@.subrange(0, i + 1).last() == snakes@[i as int]);
        if !alive_only || snakes[i].health > 0 {
            match find_url(snake_urls, &snakes[i].id) {
                Some(u) => {
                    r.push((i, u));
                    assert(targets_view(r@) =~= targets_view(before).push((i as int, u@)));
                },
                None => {},
            }
        }
        i = i + 1;
    }
    assert(snakes@.subrange(0, n as int) =~= snakes@);
    r
}

} // verus!
