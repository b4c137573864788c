//! Parsing of the create-game API request and its defaults.

use vstd::prelude::*;

use crate::ids::{uuid_string, uuid_text};
use crate::models::{Visibility, Game, GameBattlesnakeWithDetails, GameBoardSize, GameType, game_status_name, board_size_name, game_type_name};
use crate::text::{lowercase, owned, str_equals, to_lowercase};
use vstd::string::StringExecFns;

verus! {

/// Board size used when a request names none.
pub fn default_board() -> (r: String)
    ensures
        r@ == "11x11"@,
{
    owned("11x11")
}

/// Game type used when a request names none.
pub fn default_game_type() -> (r: String)
    ensures
        r@ == "standard"@,
{
    owned("standard")
}

/// Number of games listed when a request gives no limit.
pub fn default_limit() -> (r: u32)
    ensures
        r == 20,
{
    20
}

/// Game type named by an already lowercased string.
pub open spec fn game_type_from_lower(l: Seq<char>) -> Option<GameType> {
    if l == "standard"@ {
        Some(GameType::Standard)
    } else if l == "royale"@ {
        Some(GameType::Royale)
    } else if l == "constrictor"@ {
        Some(GameType::Constrictor)
    } else if l == "snail"@ || l == "snailmode"@ || l == "snail_mode"@ || l == "snail mode"@ {
        Some(GameType::SnailMode)
    } else {
        None
    }
}

/// Board size named by an already lowercased string.
pub open spec fn board_size_from_lower(l: Seq<char>) -> Option<GameBoardSize> {
    if l == "7x7"@ {
        Some(GameBoardSize::Small)
    } else if l == "11x11"@ {
        Some(GameBoardSize::Medium)
    } else if l == "19x19"@ {
        Some(GameBoardSize::Large)
    } else {
        None
    }
}

/// Game type for an already lowercased name.
pub fn game_type_from_lowercase(l: &str) -> (r: Result<GameType, &'static str>)
    ensures
        match game_type_from_lower(l@) {
            Some(t) => r == Ok::<GameType, &'static str>(t),
            None => r matches Err(e) && e@
                == "Invalid game type. Use standard, royale, constrictor, or snail"@,
        },
{
    if str_equals(l, "standard") {
        Ok(GameType::Standard)
    } else if str_equals(l, "royale") {
        Ok(GameType::Royale)
    } else if str_equals(l, "constrictor") {
        Ok(GameType::Constrictor)
    } else if str_equals(l, "snail") || str_equals(l, "snailmode") || str_equals(l, "snail_mode")
        || str_equals(l, "snail mode") {
        Ok(GameType::SnailMode)
    } else {
        Err("Invalid game type. Use standard, royale, constrictor, or snail")
    }
}

/// Parses a game type name, ignoring case; "snail", "snailmode",
/// "snail_mode" and "snail mode" all name snail mode.
pub fn parse_game_type(s: &str) -> (r: Result<GameType, &'static str>)
    ensures
        match game_type_from_lower(lowercase(s@)) {
            Some(t) => r == Ok::<GameType, &'static str>(t),
            None => r matches Err(e) && e@
                == "Invalid game type. Use standard, royale, constrictor, or snail"@,
        },
{
    let l = to_lowercase(s);
    game_type_from_lowercase(l.as_str())
}

/// Board size for an already lowercased name.
pub fn board_size_from_lowercase(l: &str) -> (r: Result<GameBoardSize, &'static str>)
    ensures
        match board_size_from_lower(l@) {
            Some(b) => r == Ok::<GameBoardSize, &'static str>(b),
            None => r matches Err(e) && e@ == "Invalid board size. Use 7x7, 11x11, or 19x19"@,
        },
{
    if str_equals(l, "7x7") {
        Ok(GameBoardSize::Small)
    } else if str_equals(l, "11x11") {
        Ok(GameBoardSize::Medium)
    } else if str_equals(l, "19x19") {
        Ok(GameBoardSize::Large)
    } else {
        Err("Invalid board size. Use 7x7, 11x11, or 19x19")
    }
}

/// Parses a board size name, ignoring case.
pub fn parse_board_size(s: &str) -> (r: Result<GameBoardSize, &'static str>)
    ensures
        match board_size_from_lower(lowercase(s@)) {
            Some(b) => r == Ok::<GameBoardSize, &'static str>(b),
            None => r matches Err(e) && e@ == "Invalid board size. Use 7x7, 11x11, or 19x19"@,
        },
{
    let l = to_lowercase(s);
    board_size_from_lowercase(l.as_str())
}

/// Why a set of snakes cannot make a game.
#[derive(Debug, Clone, Copy, PartialEq, Eq, Structural)]
pub enum GameSnakesError {
    NoSnakes,
    TooManySnakes,
    DuplicateSnakes,
}

impl GameSnakesError {
    pub fn message(&self) -> (r: &'static str)
        ensures
            r@ == match *self {
                GameSnakesError::NoSnakes => "At least one battlesnake is required for a game"@,
                GameSnakesError::TooManySnakes => "A maximum of 4 battlesnakes are allowed in a game"@,
                GameSnakesError::DuplicateSnakes => "Duplicate battlesnake IDs are not allowed"@,
            },
    {
        match self {
            GameSnakesError::NoSnakes => "At least one battlesnake is required for a game",
            GameSnakesError::TooManySnakes => "A maximum of 4 battlesnakes are allowed in a game",
            GameSnakesError::DuplicateSnakes => "Duplicate battlesnake IDs are not allowed",
        }
    }
}

/// A game takes one to four distinct battlesnakes.
pub fn check_game_snakes(ids: &Vec<u128>) -> (r: Result<(), GameSnakesError>)
    ensures
        ids@.len() == 0 ==> r == Err::<(), GameSnakesError>(GameSnakesError::NoSnakes),
        ids@.len() > 4 ==> r == Err::<(), GameSnakesError>(GameSnakesError::TooManySnakes),
        1 <= ids@.len() <= 4 && !ids@.no_duplicates() ==> r == Err::<(), GameSnakesError>(
            GameSnakesError::DuplicateSnakes,
        ),
        1 <= ids@.len() <= 4 && ids@.no_duplicates() ==> r == Ok::<(), GameSnakesError>(()),
{
    let n = ids.len();
    if n == 0 {
        return Err(GameSnakesError::NoSnakes);
    }
    if n > 4 {
        return Err(GameSnakesError::TooManySnakes);
    }
    let mut i: usize = 0;
    while i < n
        invariant
            n == ids@.len(),
            1 <= n <= 4,
            i <= n,
            forall|a: int, b: int| 0 <= a < i && 0 <= b < n && a != b ==> ids@[a] != ids@[b],
        decreases n - i,
    {
        let mut j: usize = 0;
        while j < n
            invariant
                n == ids@.len(),
                1 <= n <= 4,
                i < n,
                j <= n,
                forall|b: int| 0 <= b < j && b != i ==> ids@[i as int] != ids@[b],
            decreases n - j,
        {
            if j != i && ids[i] == ids[j] {
                return Err(GameSnakesError::DuplicateSnakes);
            }
            j = j + 1;
        }
        i = i + 1;
    }
    Ok(())
}

/// A request to create a game: one to four snake ids, a board size name
/// and a game type name.
#[derive(Debug, Clone)]
pub struct CreateGameRequest {
    pub snakes: Vec<u128>,
    pub board: String,
    pub game_type: String,
}

/// What the settings and snake count of a create-game request amount to:
/// the parsed board size and game type, or the message it is refused with.
pub open spec fn create_request_outcome(
    snakes: Seq<u128>,
    board: Seq<char>,
    game_type: Seq<char>,
) -> Result<(GameBoardSize, GameType), Seq<char>> {
    match board_size_from_lower(lowercase(board)) {
        None => Err("Invalid board size. Use 7x7, 11x11, or 19x19"@),
        Some(b) => match game_type_from_lower(lowercase(game_type)) {
            None => Err("Invalid game type. Use standard, royale, constrictor, or snail"@),
            Some(t) => if snakes.len() == 0 {
                Err("At least one snake is required"@)
            } else if snakes.len() > 4 {
                Err("Maximum of 4 snakes allowed"@)
            } else {
                Ok((b, t))
            },
        },
    }
}

/// Checks a create-game request in the order the API does: board size,
/// game type, then the number of snakes.
pub fn check_create_game_request(req: &CreateGameRequest) -> (r: Result<
    (GameBoardSize, GameType),
    String,
>)
    ensures
        match create_request_outcome(req.snakes@, req.board@, req.game_type@) {
            Ok(v) => r == Ok::<(GameBoardSize, GameType), String>(v),
            Err(m) => r matches Err(e) && e@ == m,
        },
{
    let b = match parse_board_size(req.board.as_str()) {
        Ok(b) => b,
        Err(e) => {
            return Err(owned(e));
        },
    };
    let t = match parse_game_type(req.game_type.as_str()) {
        Ok(t) => t,
        Err(e) => {
            return Err(owned(e));
        },
    };
    if req.snakes.len() == 0 {
        return Err(String::from_str("At least one snake is required"));
    }
    if req.snakes.len() > 4 {
        return Err(String::from_str("Maximum of 4 snakes allowed"));
    }
    Ok((b, t))
}

/// Whether a sequence is strictly increasing.
pub open spec fn strictly_increasing(s: Seq<u128>) -> bool {
    forall|i: int, j: int| 0 <= i < j < s.len() ==> s[i] < s[j]
}

/// The distinct ids of a request, smallest first.
pub fn sorted_unique_ids(ids: &Vec<u128>) -> (r: Vec<u128>)
    ensures
        strictly_increasing(r@),
        r@.to_set() == ids@.to_set(),
{
    let mut r: Vec<u128> = Vec::new();
    let n = ids.len();
    let mut i: usize = 0;
    while i < n
        invariant
            n == ids@.len(),
            i <= n,
            strictly_increasing(r@),
            r@.to_set() == ids@.subrange(0, i as int).to_set(),
        decreases n - i,
    {
        let x = ids[i];
        let ghost before = r@;
        let mut p: usize = 0;
        while p < r.len() && r[p] < x
            invariant
                p <= r@.len(),
                r@ == before,
                forall|k: int| 0 <= k < p ==> r@[k] < x,
            decreases r@.len() - p,
        {
            p = p + 1;
        }
        if p < r.len() && r[p] == x {
            assert(ids@.subrange(0, i + 1).to_set() =~= ids@.subrange(0, i as int).to_set().insert(x)) by {
                assert(ids@.subrange(0, i + 1) =~= ids@.subrange(0, i as int).push(x));
                ids@.subrange(0, i as int).lemma_push_to_set_commute(x);
            }
            assert(r@.contains(x));
            assert(r@.to_set().insert(x) =~= r@.to_set());
        } else {
            r.insert(p, x);
            assert(r@ =~= before.subrange(0, p as int).push(x) + before.subrange(p as int, before.len() as int));
            assert(strictly_increasing(r@)) by {
                assert forall|a: int, b: int| 0 <= a < b < r@.len() implies r@[a] < r@[b] by {
                    if b == p as int {
                        assert(r@[a] == before[a]);
                    } else if a == p as int {
                        assert(r@[b] == before[b - 1]);
                        if p < before.len() {
                            assert(before[p as int] >= x);
                            assert(before[p as int] != x);
                            if b - 1 > p {
                                assert(before[p as int] < before[b - 1]);
                            }
                        }
                    }
                }
            }
            assert(ids@.subrange(0, i + 1) =~= ids@.subrange(0, i as int).push(x));
            proof {
                ids@.subrange(0, i as int).lemma_push_to_set_commute(x);
            }
            assert(r@.to_set() =~= before.to_set().insert(x)) by {
                assert forall|y: u128| r@.to_set().contains(y) <==> before.to_set().insert(x).contains(y) by {
                    if r@.contains(y) {
                        let k = choose|k: int| 0 <= k < r@.len() && r@[k] == y;
                        if k < p {
                            assert(before[k] == y);
                        } else if k > p {
                            assert(before[k - 1] == y);
                        }
                    }
                    if before.contains(y) {
                        let k = choose|k: int| 0 <= k < before.len() && before[k] == y;
                        if k < p {
                            assert(r@[k] == y);
                        } else {
                            assert(r@[k + 1] == y);
                        }
                    }
                    if y == x {
                        assert(r@[p as int] == x);
                    }
                }
            }
            assert(ids@.subrange(0, i + 1).to_set() =~= ids@.subrange(0, i as int).to_set().insert(x));
        }
        i = i + 1;
    }
    assert(ids@.subrange(0, n as int) =~= ids@);
    r
}

/// The first of `wanted` that is not among `found`.
pub open spec fn first_missing(wanted: Seq<u128>, found: Seq<u128>) -> Option<u128>
    decreases wanted.len(),
{
    if wanted.len() == 0 {
        None
    } else if !found.contains(wanted[0]) {
        Some(wanted[0])
    } else {
        first_missing(wanted.drop_first(), found)
    }
}

/// The first requested snake that the lookup did not find among the
/// snakes the user may use.
pub fn first_inaccessible(unique_ids: &Vec<u128>, accessible: &Vec<u128>) -> (r: Option<u128>)
    ensures
        r == first_missing(unique_ids@, accessible@),
{
    let n = unique_ids.len();
    let mut i: usize = 0;
    assert(unique_ids@.subrange(0, n as int) =~= unique_ids@);
    while i < n
        invariant
            n == unique_ids@.len(),
            i <= n,
            first_missing(unique_ids@.subrange(i as int, n as int), accessible@) == first_missing(
                unique_ids@,
                accessible@,
            ),
        decreases n - i,
    {
        assert(unique_ids@.subrange(i as int, n as int).drop_first() =~= unique_ids@.subrange(
            i + 1,
            n as int,
        ));
        let x = unique_ids[i];
        let mut found = false;
        let m = accessible.len();
        let mut k: usize = 0;
        while k < m
            invariant
                m == accessible@.len(),
                k <= m,
                found == (exists|j: int| 0 <= j < k && accessible@[j] == x),
            decreases m - k,
        {
            if accessible[k] == x {
                found = true;
            }
            k = k + 1;
        }
        if !found {
            return Some(x);
        }
        i = i + 1;
    }
    None
}

/// The message for a requested snake that cannot be used.
pub open spec fn inaccessible_message(id: u128) -> Seq<char> {
    "Snake "@ + uuid_text(id) + " not found or not accessible"@
}

/// The message for a requested snake that cannot be used.
pub fn inaccessible_snake_message(id: u128) -> (r: String)
    ensures
        r@ == inaccessible_message(id),
{
    let mut r = String::from_str("Snake ");
    let u = uuid_string(id);
    r.append(u.as_str());
    r.append(" not found or not accessible");
    r
}

/// The number of games a listing returns: the requested limit, at most a
/// hundred.
pub fn list_limit(limit: u32) -> (r: i64)
    ensures
        r == if limit < 100 { limit as int } else { 100 },
{
    if limit < 100 {
        limit as i64
    } else {
        100
    }
}

/// A snake in a game response.
#[derive(Debug, Clone)]
pub struct SnakeInfo {
    pub id: u128,
    pub name: String,
    pub url: String,
}

/// The snake information for an entry of a game.
pub fn snake_info(snake: &GameBattlesnakeWithDetails) -> (r: SnakeInfo)
    ensures
        r.id == snake.battlesnake_id,
        r.name@ == snake.name@,
        r.url@ == snake.url@,
{
    SnakeInfo { id: snake.battlesnake_id, name: snake.name.clone(), url: snake.url.clone() }
}

/// The battlesnake of the first entry that placed first, if any.
pub open spec fn winner_of(s: Seq<GameBattlesnakeWithDetails>) -> Option<u128>
    decreases s.len(),
{
    if s.len() == 0 {
        None
    } else if s[0].placement == Some(1i32) {
        Some(s[0].battlesnake_id)
    } else {
        winner_of(s.drop_first())
    }
}

/// The battlesnake that placed first, if any.
pub fn find_winner(battlesnakes: &[GameBattlesnakeWithDetails]) -> (r: Option<u128>)
    ensures
        r == winner_of(battlesnakes@),
{
    let n = battlesnakes.len();
    let mut i: usize = 0;
    assert(battlesnakes@.subrange(0, n as int) =~= battlesnakes@);
    while i < n
        invariant
            n == battlesnakes@.len(),
            i <= n,
            winner_of(battlesnakes@.subrange(i as int, n as int)) == winner_of(battlesnakes@),
        decreases n - i,
    {
        assert(battlesnakes@.subrange(i as int, n as int).drop_first() =~= battlesnakes@.subrange(
            i + 1,
            n as int,
        ));
        if battlesnakes[i].placement == Some(1i32) {
            return Some(battlesnakes[i].battlesnake_id);
        }
        i = i + 1;
    }
    None
}

/// A game in a game listing.
#[derive(Debug, Clone)]
pub struct GameListItem {
    pub id: u128,
    pub status: String,
    pub winner: Option<u128>,
    pub snakes: Vec<SnakeInfo>,
    pub board: String,
    pub game_type: String,
    pub created_at: i64,
}

/// The listing entry for a game and its battlesnakes: its names for status,
/// board and type, the winner, and the snakes in order.
pub fn build_game_list_item(game: &Game, battlesnakes: &[GameBattlesnakeWithDetails]) -> (r:
    GameListItem)
    ensures
        r.id == game.game_id,
        r.status@ == game_status_name(game.status),
        r.winner == winner_of(battlesnakes@),
        r.snakes@.len() == battlesnakes@.len(),
        forall|i: int|
            0 <= i < battlesnakes@.len() ==> (#[trigger] r.snakes@[i]).id
                == battlesnakes@[i].battlesnake_id && r.snakes@[i].name@ == battlesnakes@[i].name@
                && r.snakes@[i].url@ == battlesnakes@[i].url@,
        r.board@ == board_size_name(game.board_size),
        r.game_type@ == game_type_name(game.game_type),
        r.created_at == game.created_at,
{
    let winner = find_winner(battlesnakes);
    let mut snakes: Vec<SnakeInfo> = Vec::new();
    let n = battlesnakes.len();
    let mut i: usize = 0;
    while i < n
        invariant
            n == battlesnakes@.len(),
            i <= n,
            snakes@.len() == i,
            forall|k: int|
                0 <= k < i ==> (#[trigger] snakes@[k]).id == battlesnakes@[k].battlesnake_id
                    && snakes@[k].name@ == battlesnakes@[k].name@ && snakes@[k].url@
                    == battlesnakes@[k].url@,
        decreases n - i,
    {
        snakes.push(snake_info(&battlesnakes[i]));
        i = i + 1;
    }
    GameListItem {
        id: game.game_id,
        status: owned(game.status.as_str()),
        winner,
        snakes,
        board: owned(game.board_size.as_str()),
        game_type: owned(game.game_type.as_str()),
        created_at: game.created_at,
    }
}

/// Whether a user may filter games by a snake: the snake exists and is
/// the user's own or public. The snake is given by its owner and visibility.
pub open spec fn snake_filter_allowed(snake: Option<(u128, Visibility)>, user_id: u128) -> bool {
    match snake {
        Some((owner, visibility)) => owner == user_id || visibility == Visibility::Public,
        None => false,
    }
}

/// Checks a game listing's snake filter: refused, with the message the API
/// answers, for a snake that does not exist or that the user may not see.
pub fn check_snake_filter(snake: Option<(u128, Visibility)>, user_id: u128) -> (r: Result<(), &'static str>)
    ensures
        snake_filter_allowed(snake, user_id) ==> r is Ok,
        !snake_filter_allowed(snake, user_id) ==> (r matches Err(m) && m@
            == "Snake not found or not accessible"@),
{
    match snake {
        Some((owner, visibility)) => {
            if owner == user_id || visibility == Visibility::Public {
                return Ok(());
            }
        },
        None => {},
    }
    Err("Snake not found or not accessible")
}

} // verus!
