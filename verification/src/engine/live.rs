//! A game played against live snake servers, one turn at a time: the caller
//! asks the snakes for their moves and hands the answers in; the game keeps
//! the board, the order of eliminations, the recorded deaths and each
//! snake's last move, and gives back the frame to store.

use vstd::prelude::*;

use super::frame::{frame_ok, game_to_frame, DeathInfo, EngineGameFrame};
use super::rules::{is_alive, states, turn_applied};
use super::run::{
    id_seq, placement_ids, ranks_every_snake, record_dead, string_views, GameResult, GameRun,
};
use super::wire::{Game, Move};
use crate::snake_client::MoveResult;
use crate::text::{owned, str_equals};

verus! {

/// Entry `k` is the first one recorded for snake `id`.
pub open spec fn is_first_entry(v: Seq<(String, Move)>, id: Seq<char>, k: int) -> bool {
    &&& 0 <= k < v.len()
    &&& v[k].0@ == id
    &&& forall|j: int| 0 <= j < k ==> v[j].0@ != id
}

/// The move remembered for snake `id`, if any.
pub open spec fn last_move_of(v: Seq<(String, Move)>, id: Seq<char>) -> Option<Move> {
    if exists|k: int| is_first_entry(v, id, k) {
        Some(v[choose|k: int| is_first_entry(v, id, k)].1)
    } else {
        None
    }
}

/// Result `k` is the last one given for snake `id`.
pub open spec fn is_last_result(rs: Seq<MoveResult>, id: Seq<char>, k: int) -> bool {
    &&& 0 <= k < rs.len()
    &&& rs[k].snake_id@ == id
    &&& forall|j: int| k < j < rs.len() ==> rs[j].snake_id@ != id
}

/// The move remembered for `id` after the results `rs` are recorded over
/// `v`: the last result given for `id`, or else what `v` held.
pub open spec fn remembered(v: Seq<(String, Move)>, rs: Seq<MoveResult>, id: Seq<char>) -> Option<Move> {
    if exists|k: int| is_last_result(rs, id, k) {
        Some(rs[choose|k: int| is_last_result(rs, id, k)].direction)
    } else {
        last_move_of(v, id)
    }
}

/// The moves handed to the turn rules: each result's snake and direction,
/// in the order given.
pub open spec fn result_moves(rs: Seq<MoveResult>) -> Seq<(String, Move)> {
    rs.map_values(|r: MoveResult| (r.snake_id, r.direction))
}

/// The ids of the recorded deaths, in order.
pub open spec fn death_ids(ds: Seq<DeathInfo>) -> Seq<Seq<char>> {
    ds.map_values(|d: DeathInfo| d.snake_id@)
}

/// Deaths recorded on turn `turn` for the snakes `ids`, in that order.
pub open spec fn deaths_on(ds: Seq<DeathInfo>, ids: Seq<Seq<char>>, turn: i32) -> bool {
    &&& ds.len() == ids.len()
    &&& forall|k: int|
        0 <= k < ds.len() ==> {
            &&& (#[trigger] ds[k]).snake_id@ == ids[k]
            &&& ds[k].turn == turn
            &&& ds[k].cause@ == "eliminated"@
            &&& ds[k].eliminated_by@ == ""@
        }
}

proof fn lemma_first_entry_unique(v: Seq<(String, Move)>, x: Seq<char>, a: int, b: int)
    requires
        is_first_entry(v, x, a),
        is_first_entry(v, x, b),
    ensures
        a == b,
{
    if a < b {
        assert(v[a].0@ != x);
    }
    if b < a {
        assert(v[b].0@ != x);
    }
}

proof fn lemma_last_move_at(v: Seq<(String, Move)>, x: Seq<char>, k: int)
    requires
        is_first_entry(v, x, k),
    ensures
        last_move_of(v, x) == Some(v[k].1),
{
    let c = choose|c: int| is_first_entry(v, x, c);
    lemma_first_entry_unique(v, x, c, k);
}

/// Two lists whose keys agree on `x` everywhere remember the same move for
/// `x` wherever they agree on the entries that hold `x`.
proof fn lemma_same_keys_same_move(v0: Seq<(String, Move)>, v1: Seq<(String, Move)>, x: Seq<char>)
    requires
        v0.len() <= v1.len(),
        forall|j: int| 0 <= j < v0.len() ==> (v1[j].0@ == x <==> v0[j].0@ == x),
        forall|j: int| 0 <= j < v0.len() && v0[j].0@ == x ==> v1[j] == v0[j],
        forall|j: int| v0.len() <= j < v1.len() ==> v1[j].0@ != x,
    ensures
        last_move_of(v1, x) == last_move_of(v0, x),
{
    if exists|j: int| is_first_entry(v0, x, j) {
        let j = choose|j: int| is_first_entry(v0, x, j);
        assert(is_first_entry(v1, x, j));
        lemma_last_move_at(v0, x, j);
        lemma_last_move_at(v1, x, j);
    } else {
        assert forall|j: int| !is_first_entry(v1, x, j) by {
            if is_first_entry(v1, x, j) {
                assert(is_first_entry(v0, x, j));
            }
        }
    }
}

/// Where the first entry for `id` sits, if there is one.
fn find_entry(v: &Vec<(String, Move)>, id: &String) -> (r: Option<usize>)
    ensures
        r is None ==> forall|j: int| 0 <= j < v@.len() ==> v@[j].0@ != id@,
        r matches Some(k) ==> is_first_entry(v@, id@, k as int),
{
    let n = v.len();
    let mut k: usize = 0;
    while k < n
        invariant
            n == v@.len(),
            k <= n,
            forall|j: int| 0 <= j < k ==> v@[j].0@ != id@,
        decreases n - k,
    {
        if str_equals(v[k].0.as_str(), id.as_str()) {
            return Some(k);
        }
        k = k + 1;
    }
    None
}

/// Remembers `m` as the last move of `id`, replacing what was held for it.
fn remember(v: &mut Vec<(String, Move)>, id: &String, m: Move)
    ensures
        forall|x: Seq<char>|
            #[trigger] last_move_of(final(v)@, x) == if x == id@ {
                Some(m)
            } else {
                last_move_of(old(v)@, x)
            },
{
    let ghost v0 = v@;
    match find_entry(v, id) {
        Some(k) => {
            v.set(k, (id.clone(), m));
            proof {
                let v1 = v@;
                assert forall|x: Seq<char>|
                    #[trigger] last_move_of(v1, x) == if x == id@ {
                        Some(m)
                    } else {
                        last_move_of(v0, x)
                    } by {
                    if x == id@ {
                        assert(is_first_entry(v1, x, k as int));
                        lemma_last_move_at(v1, x, k as int);
                    } else {
                        lemma_same_keys_same_move(v0, v1, x);
                    }
                }
            }
        },
        None => {
            v.push((id.clone(), m));
            proof {
                let v1 = v@;
                assert forall|x: Seq<char>|
                    #[trigger] last_move_of(v1, x) == if x == id@ {
                        Some(m)
                    } else {
                        last_move_of(v0, x)
                    } by {
                    if x == id@ {
                        assert(is_first_entry(v1, x, v0.len() as int));
                        lemma_last_move_at(v1, x, v0.len() as int);
                    } else {
                        lemma_same_keys_same_move(v0, v1, x);
                    }
                }
            }
        },
    }
}

proof fn lemma_last_result_unique(rs: Seq<MoveResult>, x: Seq<char>, a: int, b: int)
    requires
        is_last_result(rs, x, a),
        is_last_result(rs, x, b),
    ensures
        a == b,
{
    if a < b {
        assert(rs[b].snake_id@ != x);
    }
    if b < a {
        assert(rs[a].snake_id@ != x);
    }
}

/// Recording one more result changes only what is remembered for its snake.
proof fn lemma_remembered_push(v: Seq<(String, Move)>, t: Seq<MoveResult>, r: MoveResult, x: Seq<char>)
    ensures
        remembered(v, t.push(r), x) == if r.snake_id@ == x {
            Some(r.direction)
        } else {
            remembered(v, t, x)
        },
{
    let t1 = t.push(r);
    if r.snake_id@ == x {
        assert(is_last_result(t1, x, t.len() as int));
        let c = choose|c: int| is_last_result(t1, x, c);
        lemma_last_result_unique(t1, x, c, t.len() as int);
    } else {
        assert forall|k: int| is_last_result(t1, x, k) <==> is_last_result(t, x, k) by {
            if is_last_result(t, x, k) {
                assert forall|j: int| k < j < t1.len() implies t1[j].snake_id@ != x by {
                    if j < t.len() {
                        assert(t[j].snake_id@ != x);
                    }
                }
            }
            if is_last_result(t1, x, k) {
                assert(k < t.len());
                assert forall|j: int| k < j < t.len() implies t[j].snake_id@ != x by {
                    assert(t1[j].snake_id@ != x);
                }
            }
        }
        if exists|k: int| is_last_result(t, x, k) {
            let c0 = choose|k: int| is_last_result(t, x, k);
            let c1 = choose|k: int| is_last_result(t1, x, k);
            assert(is_last_result(t1, x, c0));
            lemma_last_result_unique(t, x, c0, c1);
        }
    }
}

/// Remembers the move of every result, one after another: a snake's last
/// result wins.
fn record_moves(v: &mut Vec<(String, Move)>, rs: &[MoveResult])
    ensures
        forall|x: Seq<char>| #[trigger] last_move_of(final(v)@, x) == remembered(old(v)@, rs@, x),
{
    let ghost v0 = v@;
    let n = rs.len();
    let mut i: usize = 0;
    proof {
        assert forall|x: Seq<char>| #[trigger] last_move_of(v@, x) == remembered(v0, rs@.subrange(0, 0), x) by {
            assert(!exists|k: int| is_last_result(rs@.subrange(0, 0), x, k));
        }
    }
    while i < n
        invariant
            n == rs@.len(),
            i <= n,
            forall|x: Seq<char>|
                #[trigger] last_move_of(v@, x) == remembered(v0, rs@.subrange(0, i as int), x),
        decreases n - i,
    {
        let ghost before = v@;
        remember(v, &rs[i].snake_id, rs[i].direction);
        proof {
            let t = rs@.subrange(0, i as int);
            assert(rs@.subrange(0, i + 1) =~= t.push(rs@[i as int]));
            assert forall|x: Seq<char>|
                #[trigger] last_move_of(v@, x) == remembered(v0, rs@.subrange(0, i + 1), x) by {
                lemma_remembered_push(v0, t, rs@[i as int], x);
                assert(last_move_of(before, x) == remembered(v0, t, x));
            }
        }
        i = i + 1;
    }
    proof {
        assert(rs@.subrange(0, n as int) =~= rs@);
    }
}

/// The moves to play: each result's snake id and direction.
fn moves_from_results(rs: &[MoveResult]) -> (m: Vec<(String, Move)>)
    ensures
        m@ == result_moves(rs@),
{
    let n = rs.len();
    let mut m: Vec<(String, Move)> = Vec::new();
    let mut i: usize = 0;
    while i < n
        invariant
            n == rs@.len(),
            i <= n,
            m@ == result_moves(rs@.subrange(0, i as int)),
        decreases n - i,
    {
        m.push((rs[i].snake_id.clone(), rs[i].direction));
        proof {
            assert(m@ =~= result_moves(rs@.subrange(0, i + 1)));
        }
        i = i + 1;
    }
    proof {
        assert(rs@.subrange(0, n as int) =~= rs@);
    }
    m
}

/// Records a death on turn `turn`, cause "eliminated", for each snake in
/// `newly`, in that order.
pub(crate) fn record_deaths(deaths: &mut Vec<DeathInfo>, newly: &Vec<String>, turn: i32)
    ensures
        final(deaths)@.len() == old(deaths)@.len() + newly@.len(),
        final(deaths)@.subrange(0, old(deaths)@.len() as int) == old(deaths)@,
        death_ids(final(deaths)@) == death_ids(old(deaths)@) + string_views(newly@),
        forall|k: int|
            old(deaths)@.len() <= k < final(deaths)@.len() ==> {
                &&& (#[trigger] final(deaths)@[k]).turn == turn
                &&& final(deaths)@[k].cause@ == "eliminated"@
                &&& final(deaths)@[k].eliminated_by@ == ""@
            },
{
    let ghost d0 = deaths@;
    let n = newly.len();
    let mut i: usize = 0;
    while i < n
        invariant
            n == newly@.len(),
            i <= n,
            deaths@.len() == d0.len() + i,
            deaths@.subrange(0, d0.len() as int) == d0,
            death_ids(deaths@) == death_ids(d0) + string_views(newly@).subrange(0, i as int),
            forall|k: int|
                d0.len() <= k < deaths@.len() ==> {
                    &&& (#[trigger] deaths@[k]).turn == turn
                    &&& deaths@[k].cause@ == "eliminated"@
                    &&& deaths@[k].eliminated_by@ == ""@
                },
        decreases n - i,
    {
        let cause = owned("eliminated");
        let d = DeathInfo { snake_id: newly[i].clone(), turn, cause, eliminated_by: String::new() };
        let ghost before = deaths@;
        deaths.push(d);
        proof {
            reveal_strlit("");
            assert(deaths@.subrange(0, d0.len() as int) =~= before.subrange(0, d0.len() as int));
            assert(death_ids(deaths@) =~= death_ids(before).push(newly@[i as int]@));
            assert(string_views(newly@).subrange(0, i + 1) =~= string_views(newly@).subrange(
                0,
                i as int,
            ).push(newly@[i as int]@));
        }
        i = i + 1;
    }
    proof {
        assert(string_views(newly@).subrange(0, n as int) =~= string_views(newly@));
    }
}

/// A game against live snake servers, between turns.
pub struct LiveGame {
    pub run: GameRun,
    pub death_info: Vec<DeathInfo>,
    pub last_moves: Vec<(String, Move)>,
}

impl LiveGame {
    /// One death is recorded for each eliminated snake, in the order of
    /// elimination, and only dead snakes are recorded, each once.
    pub open spec fn wf(&self) -> bool {
        &&& death_ids(self.death_info@) == string_views(self.run.elimination_order@)
        &&& self.run.record_sound()
    }

    /// Starts a game: nothing eliminated, no death, no move remembered; the
    /// record is exact when every snake is alive.
    pub fn new(game: Game) -> (r: LiveGame)
        ensures
            r.wf(),
            r.run.game == game,
            r.run.elimination_order@.len() == 0,
            r.death_info@.len() == 0,
            forall|x: Seq<char>| #[trigger] last_move_of(r.last_moves@, x) is None,
            (forall|j: int| 0 <= j < game.board.snakes@.len() ==> is_alive(#[trigger] states(game.board.snakes@)[j]))
                ==> r.run.record_exact(),
    {
        let r = LiveGame { run: GameRun::new(game), death_info: Vec::new(), last_moves: Vec::new() };
        proof {
            assert(death_ids(r.death_info@) =~= string_views(r.run.elimination_order@));
        }
        r
    }

    /// The game ends when at most one snake is alive or the turn limit is
    /// reached.
    pub fn is_over(&self) -> (r: bool)
        ensures
            r == self.run.over(),
    {
        self.run.is_over()
    }

    /// The move a snake made last, used in its place when it gives none.
    pub fn last_move(&self, id: &String) -> (r: Option<Move>)
        ensures
            r == last_move_of(self.last_moves@, id@),
    {
        match find_entry(&self.last_moves, id) {
            Some(k) => {
                proof {
                    lemma_last_move_at(self.last_moves@, id@, k as int);
                }
                Some(self.last_moves[k].1)
            },
            None => {
                proof {
                    assert(!exists|k: int| is_first_entry(self.last_moves@, id@, k));
                }
                None
            },
        }
    }

    /// The frame of the board as it stands, before any move is asked for.
    pub fn opening_frame(&self) -> (f: EngineGameFrame)
        ensures
            frame_ok(f, self.run.game, self.death_info@, Seq::empty()),
    {
        let none: Vec<MoveResult> = Vec::new();
        game_to_frame(&self.run.game, self.death_info.as_slice(), none.as_slice())
    }

    /// Plays one turn with the moves the snakes gave: remembers each
    /// snake's move, applies the turn, records a death on the new turn for
    /// each snake eliminated by it, and returns the frame to store.
    pub fn play_turn(&mut self, results: &[MoveResult]) -> (f: EngineGameFrame)
        requires
            old(self).wf(),
            !old(self).run.over(),
        ensures
            final(self).wf(),
            turn_applied(old(self).run.game, result_moves(results@), final(self).run.game),
            final(self).run.game.turn == old(self).run.game.turn + 1,
            id_seq(states(final(self).run.game.board.snakes@)) == id_seq(states(old(self).run.game.board.snakes@)),
            final(self).run.record_exact(),
            string_views(final(self).run.elimination_order@) == record_dead(
                string_views(old(self).run.elimination_order@),
                states(final(self).run.game.board.snakes@),
            ),
            final(self).death_info@.subrange(0, old(self).death_info@.len() as int)
                == old(self).death_info@,
            forall|k: int|
                old(self).death_info@.len() <= k < final(self).death_info@.len() ==> {
                    &&& (#[trigger] final(self).death_info@[k]).turn == final(self).run.game.turn
                    &&& final(self).death_info@[k].cause@ == "eliminated"@
                    &&& final(self).death_info@[k].eliminated_by@ == ""@
                },
            forall|x: Seq<char>|
                #[trigger] last_move_of(final(self).last_moves@, x) == remembered(
                    old(self).last_moves@,
                    results@,
                    x,
                ),
            frame_ok(f, final(self).run.game, final(self).death_info@, results@),
    {
        let moves = moves_from_results(results);
        record_moves(&mut self.last_moves, results);
        let ghost d0 = self.death_info@;
        let ghost o0 = string_views(self.run.elimination_order@);
        let newly = self.run.advance(moves.as_slice());
        record_deaths(&mut self.death_info, &newly, self.run.game.turn);
        game_to_frame(&self.run.game, self.death_info.as_slice(), results)
    }

    /// Ends the game: the ranking and the final turn. With distinct ids and
    /// an exact record, every snake is ranked exactly once.
    pub fn finish(self) -> (r: GameResult)
        ensures
            string_views(r.placements@) == placement_ids(
                states(self.run.game.board.snakes@),
                string_views(self.run.elimination_order@),
            ),
            r.final_turn == self.run.game.turn,
            (id_seq(states(self.run.game.board.snakes@)).no_duplicates() && self.run.record_exact())
                ==> ranks_every_snake(string_views(r.placements@), states(self.run.game.board.snakes@)),
    {
        self.run.finish()
    }
}

} // verus!
