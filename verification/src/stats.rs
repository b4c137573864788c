//! A battlesnake's record over the games it played: how many it finished,
//! how it placed, and the totals its win rate and average placement are
//! computed from.

use vstd::prelude::*;

use crate::cli::{format_utc, utc_formatted};
use crate::models::{GameBoardSize, GameStatus, GameType};
use crate::text::owned;

verus! {

/// One game in a battlesnake's history. Ids are UUIDs held as integers;
/// `created_at` is in microseconds since the Unix epoch.
#[derive(Debug)]
pub struct GameHistoryEntry {
    pub game_id: u128,
    pub game_type: GameType,
    pub board_size: GameBoardSize,
    pub status: GameStatus,
    pub placement: Option<i32>,
    pub snake_count: i64,
    pub winner_name: Option<String>,
    pub created_at: i64,
}

/// The counts behind a battlesnake's statistics. The win rate is
/// `wins / finished_games` (in percent) and the average placement
/// `placement_sum / placement_count`, each zero when its divisor is.
#[derive(Debug, Clone, Copy, PartialEq, Eq, Structural)]
pub struct BattlesnakeStats {
    pub total_games: usize,
    pub finished_games: usize,
    pub wins: usize,
    pub second_places: usize,
    pub third_places: usize,
    pub fourth_places: usize,
    pub placement_sum: i64,
    pub placement_count: usize,
}

/// The counts as plain numbers: games, finished games, firsts, seconds,
/// thirds, fourths, the sum of the placements of finished games and how
/// many finished games have one.
pub struct StatsCounts {
    pub total: nat,
    pub finished: nat,
    pub firsts: nat,
    pub seconds: nat,
    pub thirds: nat,
    pub fourths: nat,
    pub placement_sum: int,
    pub placed: nat,
}

/// One for a true condition, zero otherwise.
pub open spec fn one_if(b: bool) -> nat {
    if b {
        1
    } else {
        0
    }
}

/// The counts over a history. Only finished games count towards finished
/// games and placements; placements other than one to four are summed but
/// not counted in any place.
pub open spec fn stats_counts(h: Seq<GameHistoryEntry>) -> StatsCounts
    decreases h.len(),
{
    if h.len() == 0 {
        StatsCounts {
            total: 0,
            finished: 0,
            firsts: 0,
            seconds: 0,
            thirds: 0,
            fourths: 0,
            placement_sum: 0,
            placed: 0,
        }
    } else {
        let c = stats_counts(h.drop_last());
        let e = h.last();
        let fin = e.status == GameStatus::Finished;
        match e.placement {
            Some(p) if fin => StatsCounts {
                total: c.total + 1,
                finished: c.finished + 1,
                firsts: c.firsts + one_if(p == 1),
                seconds: c.seconds + one_if(p == 2),
                thirds: c.thirds + one_if(p == 3),
                fourths: c.fourths + one_if(p == 4),
                placement_sum: c.placement_sum + p,
                placed: c.placed + 1,
            },
            _ => StatsCounts {
                total: c.total + 1,
                finished: c.finished + one_if(fin),
                ..c
            },
        }
    }
}

/// Whether the running sum of placements stays within `i64`.
pub open spec fn placement_sums_fit(h: Seq<GameHistoryEntry>) -> bool {
    forall|k: int|
        0 <= k <= h.len() ==> i64::MIN <= #[trigger] stats_counts(h.subrange(0, k)).placement_sum
            <= i64::MAX
}

/// The counts never exceed the number of games.
pub proof fn lemma_counts_bounded(h: Seq<GameHistoryEntry>)
    ensures
        stats_counts(h).total == h.len(),
        stats_counts(h).finished <= stats_counts(h).total,
        stats_counts(h).placed <= stats_counts(h).finished,
        stats_counts(h).firsts + stats_counts(h).seconds + stats_counts(h).thirds
            + stats_counts(h).fourths <= stats_counts(h).placed,
    decreases h.len(),
{
    if h.len() > 0 {
        lemma_counts_bounded(h.drop_last());
    }
}

/// Counts a battlesnake's games, finished games and placements.
pub fn compute_stats(history: &[GameHistoryEntry]) -> (r: BattlesnakeStats)
    requires
        placement_sums_fit(history@),
    ensures
        r.total_games == stats_counts(history@).total,
        r.finished_games == stats_counts(history@).finished,
        r.wins == stats_counts(history@).firsts,
        r.second_places == stats_counts(history@).seconds,
        r.third_places == stats_counts(history@).thirds,
        r.fourth_places == stats_counts(history@).fourths,
        r.placement_sum == stats_counts(history@).placement_sum,
        r.placement_count == stats_counts(history@).placed,
{
    let n = history.len();
    let mut finished: usize = 0;
    let mut wins: usize = 0;
    let mut seconds: usize = 0;
    let mut thirds: usize = 0;
    let mut fourths: usize = 0;
    let mut sum: i64 = 0;
    let mut placed: usize = 0;
    let mut i: usize = 0;
    while i < n
        invariant
            n == history@.len(),
            i <= n,
            placement_sums_fit(history@),
            ({
                let c = stats_counts(history@.subrange(0, i as int));
                &&& c.total == i
                &&& finished == c.finished
                &&& wins == c.firsts
                &&& seconds == c.seconds
                &&& thirds == c.thirds
                &&& fourths == c.fourths
                &&& sum == c.placement_sum
                &&& placed == c.placed
                &&& c.finished <= i
                &&& c.placed <= i
                &&& c.firsts <= i
                &&& c.seconds <= i
                &&& c.thirds <= i
                &&& c.fourths <= i
            }),
        decreases n - i,
    {
        let ghost t = history@.subrange(0, i + 1);
        assert(t.drop_last() =~= history@.subrange(0, i as int));
        assert(t.last() == history@[i as int]);
        proof {
            lemma_counts_bounded(history@.subrange(0, i as int));
        }
        let e = &history[i];
        if e.status == GameStatus::Finished {
            finished = finished + 1;
            match e.placement {
                Some(p) => {
                    if p == 1 {
                        wins = wins + 1;
                    } else if p == 2 {
                        seconds = seconds + 1;
                    } else if p == 3 {
                        thirds = thirds + 1;
                    } else if p == 4 {
                        fourths = fourths + 1;
                    }
                    assert(i64::MIN <= stats_counts(t).placement_sum <= i64::MAX);
                    sum = sum + p as i64;
                    placed = placed + 1;
                },
                None => {},
            }
        }
        i = i + 1;
    }
    assert(history@.subrange(0, n as int) =~= history@);
    BattlesnakeStats {
        total_games: n,
        finished_games: finished,
        wins,
        second_places: seconds,
        third_places: thirds,
        fourth_places: fourths,
        placement_sum: sum,
        placement_count: placed,
    }
}

/// The owner shown on a battlesnake's profile: the owner's GitHub login and
/// avatar, or "Unknown User" and no avatar when the owner is not found.
pub fn owner_display(owner: Option<(String, Option<String>)>) -> (r: (String, String))
    ensures
        match owner {
            Some((login, avatar)) => r.0@ == login@ && r.1@ == match avatar {
                Some(a) => a@,
                None => Seq::<char>::empty(),
            },
            None => r.0@ == "Unknown User"@ && r.1@ == Seq::<char>::empty(),
        },
{
    match owner {
        Some((login, avatar)) => {
            let a = match avatar {
                Some(a) => a,
                None => String::new(),
            };
            (login, a)
        },
        None => (owned("Unknown User"), String::new()),
    }
}

/// The creation time shown on a battlesnake's profile, in UTC, as
/// `%Y-%m-%d %H:%M`; none for a time outside chrono's range.
pub fn profile_created_text(micros: i64) -> (r: Option<String>)
    ensures
        match r {
            Some(t) => utc_formatted(micros, "%Y-%m-%d %H:%M"@) == Some(t@),
            None => utc_formatted(micros, "%Y-%m-%d %H:%M"@) is None,
        },
{
    proof {
        reveal_strlit("%Y-%m-%d %H:%M");
    }
    format_utc(micros, "%Y-%m-%d %H:%M")
}

} // verus!
