//! Games and frames as the Battlesnake Engine stored them, and where
//! an archived game is written.

use vstd::prelude::*;
use vstd::string::{StrSliceExecFns, StringExecFns};

use crate::cli::{format_utc, utc_formatted};
use crate::text::{decimal, decimal_string, owned, push_signed, signed_decimal};
use std::collections::HashMap;

verus! {

/// A point on the board.
#[derive(Debug, Clone, Copy, PartialEq, Eq, Structural)]
pub struct Point {
    pub x: i32,
    pub y: i32,
}

/// A point with the turn it belongs to.
#[derive(Debug, Clone, Copy, PartialEq, Eq, Structural)]
pub struct PointOnTurn {
    pub x: i32,
    pub y: i32,
    pub turn: i32,
}

/// A value attached to a point of the board.
#[derive(Debug, Clone, Copy, PartialEq, Eq, Structural)]
pub struct PointState {
    pub x: i32,
    pub y: i32,
    pub value: i32,
}

/// How and when a snake was eliminated.
#[derive(Debug, Clone)]
pub struct Death {
    pub cause: String,
    pub turn: i32,
    pub eliminated_by: Option<String>,
}

/// A snake in a stored frame.
#[derive(Debug, Clone)]
pub struct EngineSnake {
    pub id: String,
    pub name: String,
    pub url: Option<String>,
    pub body: Vec<Point>,
    pub health: i32,
    pub death: Option<Death>,
    pub color: Option<String>,
    pub head_type: Option<String>,
    pub tail_type: Option<String>,
    pub latency: Option<String>,
    pub shout: Option<String>,
    pub squad: Option<String>,
    pub api_version: Option<String>,
    pub author: Option<String>,
    pub status_code: Option<i32>,
    pub error: Option<String>,
    pub timing_micros: HashMap<String, i32>,
    pub is_bot: Option<bool>,
    pub is_environment: Option<bool>,
    pub proxy_url: Option<String>,
}

/// One turn of a stored game.
#[derive(Debug, Clone)]
pub struct EngineGameFrame {
    pub turn: i32,
    pub snakes: Vec<EngineSnake>,
    pub food: Vec<Point>,
    pub hazards: Vec<Point>,
    pub game_state: HashMap<String, String>,
    pub point_state: Vec<PointState>,
}

/// A stored game's metadata. `created` is a Unix time in microseconds.
#[derive(Debug, Clone)]
pub struct EngineGame {
    pub id: String,
    pub status: String,
    pub width: i32,
    pub height: i32,
    pub ruleset: HashMap<String, String>,
    pub snake_timeout: i32,
    pub max_turns: i32,
    pub food_spawns: Vec<PointOnTurn>,
    pub hazard_spawns: Vec<PointOnTurn>,
    pub source: Option<String>,
    pub ruleset_name: Option<String>,
    pub rules_stages: Option<Vec<String>>,
    pub map: Option<String>,
    pub created: i64,
}

/// The board size text "WIDTHxHEIGHT".
pub open spec fn board_size_text(width: i32, height: i32) -> Seq<char> {
    signed_decimal(width as int) + "x"@ + signed_decimal(height as int)
}

impl EngineGame {
    /// The board size as a string like "11x11".
    pub fn board_size(&self) -> (r: String)
        ensures
            r@ == board_size_text(self.width, self.height),
    {
        let mut s = String::new();
        push_signed(&mut s, self.width as i64);
        s.append("x");
        push_signed(&mut s, self.height as i64);
        s
    }

    /// The game type: the ruleset name, or "standard" without one.
    pub fn game_type(&self) -> (r: String)
        ensures
            r@ == match self.ruleset_name {
                Some(n) => n@,
                None => "standard"@,
            },
    {
        match &self.ruleset_name {
            Some(n) => owned(n.as_str()),
            None => String::from_str("standard"),
        }
    }
}

/// The year, month and day of a Unix time in microseconds, in UTC, as
/// chrono's `%Y`, `%m` and `%d` write them; none where chrono cannot
/// represent the time.
pub open spec fn utc_date_fields(micros: i64) -> Option<(Seq<char>, Seq<char>, Seq<char>)> {
    match (utc_formatted(micros, "%Y"@), utc_formatted(micros, "%m"@), utc_formatted(micros, "%d"@)) {
        (Some(y), Some(m), Some(d)) => Some((y, m, d)),
        _ => None,
    }
}

/// The year, month and day of a Unix time in microseconds, in UTC.
fn utc_date_text(micros: i64) -> (r: Option<(String, String, String)>)
    ensures
        match r {
            Some((y, m, d)) => utc_date_fields(micros) == Some((y@, m@, d@)),
            None => utc_date_fields(micros) is None,
        },
{
    proof {
        reveal_strlit("%Y");
        reveal_strlit("%m");
        reveal_strlit("%d");
    }
    let y = format_utc(micros, "%Y");
    let m = format_utc(micros, "%m");
    let d = format_utc(micros, "%d");
    match (y, m, d) {
        (Some(y), Some(m), Some(d)) => Some((y, m, d)),
        _ => None,
    }
}

/// The archive object name of a game: `games/YYYY/MM/DD/ID.json.zst` after
/// its creation date in UTC, with the Unix epoch's date for a creation time
/// out of range.
pub open spec fn gcs_path_text(id: Seq<char>, created: i64) -> Seq<char> {
    let (y, m, d) = match utc_date_fields(created) {
        Some(f) => f,
        None => ("1970"@, "01"@, "01"@),
    };
    "games/"@ + y + "/"@ + m + "/"@ + d + "/"@ + id + ".json.zst"@
}

/// The archive object name of a game, after its creation date.
pub fn gcs_path(game: &EngineGame) -> (r: String)
    ensures
        r@ == gcs_path_text(game.id@, game.created),
{
    let (y, m, d) = match utc_date_text(game.created) {
        Some(f) => f,
        None => (String::from_str("1970"), String::from_str("01"), String::from_str("01")),
    };
    let mut s = String::from_str("games/");
    s.append(y.as_str());
    s.append("/");
    s.append(m.as_str());
    s.append("/");
    s.append(d.as_str());
    s.append("/");
    s.append(game.id.as_str());
    s.append(".json.zst");
    s
}

/// The error a backup run ends with.
#[derive(Debug)]
pub struct BackupError {
    pub message: String,
}

impl BackupError {
    /// A backup error with the given message.
    pub fn new(message: String) -> (r: BackupError)
        ensures
            r.message@ == message@,
    {
        BackupError { message }
    }

    /// The error's message.
    pub fn message(&self) -> (r: &str)
        ensures
            r@ == self.message@,
    {
        self.message.as_str()
    }
}

/// How archiving one completed game ended.
#[derive(Debug, Clone, Copy, PartialEq, Eq, Structural)]
pub enum ArchiveOutcome {
    /// It was archived before and was skipped.
    AlreadyArchived,
    /// Its data, frames, upload or record failed.
    Failed,
    /// It was archived now.
    Archived,
}

/// How many outcomes in `v` are `o`.
pub open spec fn outcome_count(v: Seq<ArchiveOutcome>, o: ArchiveOutcome) -> nat
    decreases v.len(),
{
    if v.len() == 0 {
        0
    } else {
        outcome_count(v.drop_last(), o) + if v.last() == o {
            1nat
        } else {
            0nat
        }
    }
}

proof fn lemma_outcome_count_bound(v: Seq<ArchiveOutcome>, o: ArchiveOutcome)
    ensures
        outcome_count(v, o) <= v.len(),
    decreases v.len(),
{
    if v.len() > 0 {
        lemma_outcome_count_bound(v.drop_last(), o);
    }
}

/// The counts of a backup run.
#[derive(Debug, Clone, Copy, PartialEq, Eq, Structural)]
pub struct BackupTally {
    pub archived: u64,
    pub skipped: u64,
    pub errors: u64,
}

/// Counts the archived, skipped and failed games of a backup run.
pub fn tally_outcomes(outcomes: &Vec<ArchiveOutcome>) -> (t: BackupTally)
    ensures
        t.archived == outcome_count(outcomes@, ArchiveOutcome::Archived),
        t.skipped == outcome_count(outcomes@, ArchiveOutcome::AlreadyArchived),
        t.errors == outcome_count(outcomes@, ArchiveOutcome::Failed),
{
    let n = outcomes.len();
    let mut t = BackupTally { archived: 0, skipped: 0, errors: 0 };
    let mut i: usize = 0;
    while i < n
        invariant
            n == outcomes@.len(),
            i <= n,
            t.archived == outcome_count(outcomes@.subrange(0, i as int), ArchiveOutcome::Archived),
            t.skipped == outcome_count(outcomes@.subrange(0, i as int), ArchiveOutcome::AlreadyArchived),
            t.errors == outcome_count(outcomes@.subrange(0, i as int), ArchiveOutcome::Failed),
        decreases n - i,
    {
        let ghost p = outcomes@.subrange(0, i + 1);
        assert(p.drop_last() =~= outcomes@.subrange(0, i as int));
        proof {
            lemma_outcome_count_bound(outcomes@.subrange(0, i as int), ArchiveOutcome::Archived);
            lemma_outcome_count_bound(outcomes@.subrange(0, i as int), ArchiveOutcome::AlreadyArchived);
            lemma_outcome_count_bound(outcomes@.subrange(0, i as int), ArchiveOutcome::Failed);
        }
        match outcomes[i] {
            ArchiveOutcome::Archived => {
                t.archived = t.archived + 1;
            },
            ArchiveOutcome::AlreadyArchived => {
                t.skipped = t.skipped + 1;
            },
            ArchiveOutcome::Failed => {
                t.errors = t.errors + 1;
            },
        }
        i = i + 1;
    }
    assert(outcomes@.subrange(0, n as int) =~= outcomes@);
    t
}

/// A backup run fails when any game failed, saying how many did.
pub fn backup_result(t: &BackupTally) -> (r: Result<(), BackupError>)
    ensures
        t.errors == 0 ==> r is Ok,
        t.errors > 0 ==> (r matches Err(e) && e.message@ == decimal(t.errors as nat)
            + " games failed to archive"@),
{
    if t.errors > 0 {
        let mut m = decimal_string(t.errors);
        m.append(" games failed to archive");
        proof {
            reveal_strlit(" games failed to archive");
        }
        Err(BackupError::new(m))
    } else {
        Ok(())
    }
}

} // verus!
