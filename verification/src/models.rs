//! Game and battlesnake settings: board sizes, game types, statuses and
//! visibility, with their textual names.

use vstd::prelude::*;

use crate::text::{owned, str_equals, to_lowercase};

verus! {

/// Error for a name that denotes no value; the message names the input.
#[derive(Debug)]
pub struct ParseNameError {
    pub message: String,
}

fn name_error(prefix: &str, s: &str) -> (e: ParseNameError)
    ensures
        e.message@ == prefix@ + s@,
{
    let mut m = owned(prefix);
    m.append(s);
    ParseNameError { message: m }
}

/// Board sizes: 7x7, 11x11 and 19x19.
#[derive(Debug, Clone, Copy, PartialEq, Eq, Structural)]
pub enum GameBoardSize {
    Small,
    Medium,
    Large,
}

pub open spec fn board_size_name(b: GameBoardSize) -> Seq<char> {
    match b {
        GameBoardSize::Small => "7x7"@,
        GameBoardSize::Medium => "11x11"@,
        GameBoardSize::Large => "19x19"@,
    }
}

pub open spec fn board_size_from_name(s: Seq<char>) -> Option<GameBoardSize> {
    if s == "7x7"@ {
        Some(GameBoardSize::Small)
    } else if s == "11x11"@ {
        Some(GameBoardSize::Medium)
    } else if s == "19x19"@ {
        Some(GameBoardSize::Large)
    } else {
        None
    }
}

impl GameBoardSize {
    pub fn as_str(&self) -> (r: &'static str)
        ensures
            r@ == board_size_name(*self),
    {
        match self {
            GameBoardSize::Small => "7x7",
            GameBoardSize::Medium => "11x11",
            GameBoardSize::Large => "19x19",
        }
    }

    /// The (width, height) of the board.
    pub fn dimensions(&self) -> (r: (u32, u32))
        ensures
            r == match *self {
                GameBoardSize::Small => (7u32, 7u32),
                GameBoardSize::Medium => (11u32, 11u32),
                GameBoardSize::Large => (19u32, 19u32),
            },
    {
        match self {
            GameBoardSize::Small => (7, 7),
            GameBoardSize::Medium => (11, 11),
            GameBoardSize::Large => (19, 19),
        }
    }

    /// Parses the exact name of a board size.
    pub fn from_str(s: &str) -> (r: Result<GameBoardSize, ParseNameError>)
        ensures
            match board_size_from_name(s@) {
                Some(b) => r == Ok::<GameBoardSize, ParseNameError>(b),
                None => r matches Err(e) && e.message@ == "Invalid board size: "@ + s@,
            },
    {
        if str_equals(s, "7x7") {
            Ok(GameBoardSize::Small)
        } else if str_equals(s, "11x11") {
            Ok(GameBoardSize::Medium)
        } else if str_equals(s, "19x19") {
            Ok(GameBoardSize::Large)
        } else {
            Err(name_error("Invalid board size: ", s))
        }
    }
}

/// Game types.
#[derive(Debug, Clone, Copy, PartialEq, Eq, Structural)]
pub enum GameType {
    Standard,
    Royale,
    Constrictor,
    SnailMode,
}

pub open spec fn game_type_name(t: GameType) -> Seq<char> {
    match t {
        GameType::Standard => "Standard"@,
        GameType::Royale => "Royale"@,
        GameType::Constrictor => "Constrictor"@,
        GameType::SnailMode => "Snail Mode"@,
    }
}

pub open spec fn game_type_from_name(s: Seq<char>) -> Option<GameType> {
    if s == "Standard"@ {
        Some(GameType::Standard)
    } else if s == "Royale"@ {
        Some(GameType::Royale)
    } else if s == "Constrictor"@ {
        Some(GameType::Constrictor)
    } else if s == "Snail Mode"@ {
        Some(GameType::SnailMode)
    } else {
        None
    }
}

impl GameType {
    pub fn as_str(&self) -> (r: &'static str)
        ensures
            r@ == game_type_name(*self),
    {
        match self {
            GameType::Standard => "Standard",
            GameType::Royale => "Royale",
            GameType::Constrictor => "Constrictor",
            GameType::SnailMode => "Snail Mode",
        }
    }

    /// Parses the exact display name of a game type.
    pub fn from_str(s: &str) -> (r: Result<GameType, ParseNameError>)
        ensures
            match game_type_from_name(s@) {
                Some(t) => r == Ok::<GameType, ParseNameError>(t),
                None => r matches Err(e) && e.message@ == "Invalid game type: "@ + s@,
            },
    {
        if str_equals(s, "Standard") {
            Ok(GameType::Standard)
        } else if str_equals(s, "Royale") {
            Ok(GameType::Royale)
        } else if str_equals(s, "Constrictor") {
            Ok(GameType::Constrictor)
        } else if str_equals(s, "Snail Mode") {
            Ok(GameType::SnailMode)
        } else {
            Err(name_error("Invalid game type: ", s))
        }
    }
}

/// Lifecycle of a game.
#[derive(Debug, Clone, Copy, PartialEq, Eq, Structural)]
pub enum GameStatus {
    Waiting,
    Running,
    Finished,
}

pub open spec fn game_status_name(s: GameStatus) -> Seq<char> {
    match s {
        GameStatus::Waiting => "waiting"@,
        GameStatus::Running => "running"@,
        GameStatus::Finished => "finished"@,
    }
}

pub open spec fn game_status_from_name(s: Seq<char>) -> Option<GameStatus> {
    if s == "waiting"@ {
        Some(GameStatus::Waiting)
    } else if s == "running"@ {
        Some(GameStatus::Running)
    } else if s == "finished"@ {
        Some(GameStatus::Finished)
    } else {
        None
    }
}

impl GameStatus {
    pub fn as_str(&self) -> (r: &'static str)
        ensures
            r@ == game_status_name(*self),
    {
        match self {
            GameStatus::Waiting => "waiting",
            GameStatus::Running => "running",
            GameStatus::Finished => "finished",
        }
    }

    /// Parses the exact name of a status.
    pub fn from_str(s: &str) -> (r: Result<GameStatus, ParseNameError>)
        ensures
            match game_status_from_name(s@) {
                Some(t) => r == Ok::<GameStatus, ParseNameError>(t),
                None => r matches Err(e) && e.message@ == "Invalid game status: "@ + s@,
            },
    {
        if str_equals(s, "waiting") {
            Ok(GameStatus::Waiting)
        } else if str_equals(s, "running") {
            Ok(GameStatus::Running)
        } else if str_equals(s, "finished") {
            Ok(GameStatus::Finished)
        } else {
            Err(name_error("Invalid game status: ", s))
        }
    }
}

/// Who can see a battlesnake; public by default.
#[derive(Debug, Clone, Copy, PartialEq, Eq, Structural)]
pub enum Visibility {
    Public,
    Private,
}

pub open spec fn visibility_name(v: Visibility) -> Seq<char> {
    match v {
        Visibility::Public => "public"@,
        Visibility::Private => "private"@,
    }
}

impl Visibility {
    pub fn as_str(&self) -> (r: &'static str)
        ensures
            r@ == visibility_name(*self),
    {
        match self {
            Visibility::Public => "public",
            Visibility::Private => "private",
        }
    }

    /// Parses an already lowercased visibility name.
    pub fn from_lowercase(l: &str) -> (r: Result<Visibility, ParseNameError>)
        ensures
            l@ == "public"@ ==> r == Ok::<Visibility, ParseNameError>(Visibility::Public),
            l@ == "private"@ ==> r == Ok::<Visibility, ParseNameError>(Visibility::Private),
            l@ != "public"@ && l@ != "private"@ ==> r is Err,
    {
        proof {
            reveal_strlit("public");
            reveal_strlit("private");
            assert("public"@.len() != "private"@.len());
        }
        if str_equals(l, "public") {
            Ok(Visibility::Public)
        } else if str_equals(l, "private") {
            Ok(Visibility::Private)
        } else {
            Err(ParseNameError { message: owned("") })
        }
    }

    /// Parses a visibility name, ignoring case.
    pub fn from_str(s: &str) -> (r: Result<Visibility, ParseNameError>)
        ensures
            crate::text::lowercase(s@) == "public"@ ==> r == Ok::<Visibility, ParseNameError>(
                Visibility::Public,
            ),
            crate::text::lowercase(s@) == "private"@ ==> r == Ok::<Visibility, ParseNameError>(
                Visibility::Private,
            ),
            crate::text::lowercase(s@) != "public"@ && crate::text::lowercase(s@) != "private"@
                ==> (r matches Err(e) && e.message@ == "Invalid visibility: "@ + s@),
    {
        let l = to_lowercase(s);
        match Visibility::from_lowercase(l.as_str()) {
            Ok(v) => Ok(v),
            Err(_) => Err(name_error("Invalid visibility: ", s)),
        }
    }
}

impl Default for Visibility {
    fn default() -> (r: Visibility)
        ensures
            r == Visibility::Public,
    {
        Visibility::Public
    }
}

/// Reading back the name of a board size gives the same board size.
pub proof fn lemma_board_size_names_round_trip(b: GameBoardSize)
    ensures
        board_size_from_name(board_size_name(b)) == Some(b),
{
    reveal_strlit("7x7");
    reveal_strlit("11x11");
    reveal_strlit("19x19");
    assert("7x7"@.len() == 3);
    assert("11x11"@.len() == 5);
    assert("19x19"@[1] != "11x11"@[1]);
}

/// Reading back the name of a game type gives the same game type.
pub proof fn lemma_game_type_names_round_trip(t: GameType)
    ensures
        game_type_from_name(game_type_name(t)) == Some(t),
{
    reveal_strlit("Standard");
    reveal_strlit("Royale");
    reveal_strlit("Constrictor");
    reveal_strlit("Snail Mode");
    assert("Standard"@.len() == 8);
    assert("Royale"@.len() == 6);
    assert("Constrictor"@.len() == 11);
    assert("Snail Mode"@.len() == 10);
}

/// Reading back the name of a status gives the same status.
pub proof fn lemma_game_status_names_round_trip(s: GameStatus)
    ensures
        game_status_from_name(game_status_name(s)) == Some(s),
{
    reveal_strlit("waiting");
    reveal_strlit("running");
    reveal_strlit("finished");
    assert("waiting"@[0] != "running"@[0]);
    assert("finished"@.len() == 8);
    assert("waiting"@.len() == 7);
    assert("running"@.len() == 7);
}

} // verus!

verus! {

/// A battlesnake entered in a game, with the battlesnake's details. Ids are
/// UUIDs held as integers; times are microseconds since the Unix epoch.
#[derive(Debug)]
pub struct GameBattlesnakeWithDetails {
    pub game_battlesnake_id: u128,
    pub game_id: u128,
    pub battlesnake_id: u128,
    pub placement: Option<i32>,
    pub created_at: i64,
    pub updated_at: i64,
    pub name: String,
    pub url: String,
    pub user_id: u128,
}

/// A game's record. Ids are UUIDs held as integers; times are microseconds
/// since the Unix epoch.
#[derive(Debug, Clone, Copy, PartialEq, Eq, Structural)]
pub struct Game {
    pub game_id: u128,
    pub board_size: GameBoardSize,
    pub game_type: GameType,
    pub status: GameStatus,
    pub enqueued_at: Option<i64>,
    pub created_at: i64,
    pub updated_at: i64,
}

/// The settings of a new game.
#[derive(Debug, Clone, Copy, PartialEq, Eq, Structural)]
pub struct CreateGame {
    pub board_size: GameBoardSize,
    pub game_type: GameType,
}

/// A battlesnake's final placement in a game.
#[derive(Debug, Clone, Copy, PartialEq, Eq, Structural)]
pub struct SetGameResult {
    pub placement: i32,
}

/// A battlesnake as stored. Ids are UUIDs held as integers; times are
/// microseconds since the Unix epoch.
#[derive(Debug, Clone)]
pub struct Battlesnake {
    pub battlesnake_id: u128,
    pub user_id: u128,
    pub name: String,
    pub url: String,
    pub visibility: Visibility,
    pub created_at: i64,
    pub updated_at: i64,
}

/// A new battlesnake.
#[derive(Debug, Clone)]
pub struct CreateBattlesnake {
    pub name: String,
    pub url: String,
    pub visibility: Visibility,
}

/// New values for a battlesnake.
#[derive(Debug, Clone)]
pub struct UpdateBattlesnake {
    pub name: String,
    pub url: String,
    pub visibility: Visibility,
}

} // verus!
