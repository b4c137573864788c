//! Running a game turn after turn and ranking the snakes at the end.

use vstd::prelude::*;

use super::rules::{
    after_feeding, apply_turn, details_kept, eliminated_all, in_tail, is_alive, out_of_bounds,
    remove_each, removal_in_bounds, rule_height, rule_width, states, turn_applied, SnakeState,
};
use super::wire::{spec_step, BattleSnake, Game, Move, Position};

verus! {

/// Games end at the latest after this many turns.
pub const MAX_TURNS: i32 = 500;

/// Number of living snakes.
pub open spec fn alive_count(g: Seq<SnakeState>) -> nat
    decreases g.len(),
{
    if g.len() == 0 {
        0
    } else {
        alive_count(g.drop_last()) + if is_alive(g.last()) {
            1nat
        } else {
            0nat
        }
    }
}

/// Whether one snake or none is left alive.
pub fn is_game_over(game: &Game) -> (r: bool)
    ensures
        r == (alive_count(states(game.board.snakes@)) <= 1),
{
    let ghost g = states(game.board.snakes@);
    let n = game.board.snakes.len();
    let mut count: usize = 0;
    let mut i: usize = 0;
    while i < n
        invariant
            n == game.board.snakes@.len(),
            g == states(game.board.snakes@),
            i <= n,
            count == alive_count(g.subrange(0, i as int)),
            count <= i,
        decreases n - i,
    {
        assert(g.subrange(0, i + 1).drop_last() =~= g.subrange(0, i as int));
        if game.board.snakes[i].health > 0 {
            count = count + 1;
        }
        i = i + 1;
    }
    assert(g.subrange(0, n as int) =~= g);
    count <= 1
}

} // verus!

verus! {

/// Copies the snakes one by one.
pub fn copy_snakes(v: &Vec<BattleSnake>) -> (r: Vec<BattleSnake>)
    ensures
        states(r@) == states(v@),
        details_kept(v@, r@),
{
    let mut r: Vec<BattleSnake> = Vec::new();
    let n = v.len();
    let mut i: usize = 0;
    while i < n
        invariant
            n == v@.len(),
            i <= n,
            r@.len() == i,
            forall|k: int| 0 <= k < i ==> #[trigger] super::rules::state_of(r@[k]) == super::rules::state_of(v@[k]),
            forall|k: int| 0 <= k < i ==> super::rules::same_details(#[trigger] v@[k], r@[k]),
        decreases n - i,
    {
        let c = v[i].duplicate();
        r.push(c);
        i = i + 1;
    }
    assert(states(r@) =~= states(v@));
    r
}

} // verus!

verus! {

pub open spec fn id_seq(g: Seq<SnakeState>) -> Seq<Seq<char>> {
    g.map_values(|s: SnakeState| s.id)
}

pub open spec fn string_views(v: Seq<String>) -> Seq<Seq<char>> {
    v.map_values(|s: String| s@)
}

/// Ids of the living snakes, in board order.
pub open spec fn alive_ids(g: Seq<SnakeState>) -> Seq<Seq<char>>
    decreases g.len(),
{
    if g.len() == 0 {
        Seq::empty()
    } else {
        let prev = alive_ids(g.drop_last());
        if is_alive(g.last()) {
            prev.push(g.last().id)
        } else {
            prev
        }
    }
}

/// Appends, in board order, the ids of dead snakes not yet recorded.
pub open spec fn record_dead(order: Seq<Seq<char>>, g: Seq<SnakeState>) -> Seq<Seq<char>>
    decreases g.len(),
{
    if g.len() == 0 {
        order
    } else {
        let prev = record_dead(order, g.drop_last());
        if !is_alive(g.last()) && !prev.contains(g.last().id) {
            prev.push(g.last().id)
        } else {
            prev
        }
    }
}

/// Final ranking: the living snakes first, then the eliminated ones from
/// the last eliminated to the first.
pub open spec fn placement_ids(g: Seq<SnakeState>, order: Seq<Seq<char>>) -> Seq<Seq<char>> {
    alive_ids(g) + order.reverse()
}

/// `x` is the id of a dead snake.
pub open spec fn is_dead_id(g: Seq<SnakeState>, x: Seq<char>) -> bool {
    exists|j: int| 0 <= j < g.len() && !is_alive(g[j]) && g[j].id == x
}

/// The recorded eliminations are distinct ids of dead snakes.
pub open spec fn order_sound(g: Seq<SnakeState>, order: Seq<Seq<char>>) -> bool {
    &&& order.no_duplicates()
    &&& forall|x: Seq<char>| #[trigger] order.contains(x) ==> is_dead_id(g, x)
}

/// Every dead snake has been recorded.
pub open spec fn order_complete(g: Seq<SnakeState>, order: Seq<Seq<char>>) -> bool {
    forall|x: Seq<char>| is_dead_id(g, x) ==> #[trigger] order.contains(x)
}

proof fn lemma_alive_ids(g: Seq<SnakeState>)
    ensures
        forall|x: Seq<char>|
            #[trigger] alive_ids(g).contains(x) <==> exists|j: int|
                0 <= j < g.len() && is_alive(g[j]) && g[j].id == x,
        id_seq(g).no_duplicates() ==> alive_ids(g).no_duplicates(),
    decreases g.len(),
{
    if g.len() > 0 {
        let t = g.drop_last();
        lemma_alive_ids(t);
        let p = alive_ids(t);
        assert forall|x: Seq<char>|
            #[trigger] alive_ids(g).contains(x) <==> exists|j: int|
                0 <= j < g.len() && is_alive(g[j]) && g[j].id == x by {
            if alive_ids(g).contains(x) {
                let k = choose|k: int| 0 <= k < alive_ids(g).len() && alive_ids(g)[k] == x;
                if k < p.len() {
                    assert(p.contains(x));
                    let j = choose|j: int| 0 <= j < t.len() && is_alive(t[j]) && t[j].id == x;
                    assert(g[j] == t[j]);
                }
            }
            if exists|j: int| 0 <= j < g.len() && is_alive(g[j]) && g[j].id == x {
                let j = choose|j: int| 0 <= j < g.len() && is_alive(g[j]) && g[j].id == x;
                if j < t.len() {
                    assert(t[j] == g[j]);
                    assert(p.contains(x));
                    let k = choose|k: int| 0 <= k < p.len() && p[k] == x;
                    assert(alive_ids(g)[k] == x);
                } else {
                    assert(alive_ids(g)[p.len() as int] == x);
                }
            }
        }
        if id_seq(g).no_duplicates() {
            assert(id_seq(t) =~= id_seq(g).drop_last());
            if is_alive(g.last()) {
                assert(!p.contains(g.last().id)) by {
                    if p.contains(g.last().id) {
                        let j = choose|j: int|
                            0 <= j < t.len() && is_alive(t[j]) && t[j].id == g.last().id;
                        assert(id_seq(g)[j] == id_seq(g)[g.len() - 1]);
                    }
                }
            }
        }
    }
}

proof fn lemma_record_dead(order: Seq<Seq<char>>, g: Seq<SnakeState>)
    ensures
        order.no_duplicates() ==> record_dead(order, g).no_duplicates(),
        forall|x: Seq<char>|
            #[trigger] record_dead(order, g).contains(x) <==> (order.contains(x) || is_dead_id(
                g,
                x,
            )),
        order.is_prefix_of(record_dead(order, g)),
    decreases g.len(),
{
    if g.len() > 0 {
        let t = g.drop_last();
        lemma_record_dead(order, t);
        let p = record_dead(order, t);
        let r = record_dead(order, g);
        assert forall|x: Seq<char>|
            #[trigger] r.contains(x) <==> (order.contains(x) || is_dead_id(g, x)) by {
            if r.contains(x) {
                let k = choose|k: int| 0 <= k < r.len() && r[k] == x;
                if k < p.len() {
                    assert(p.contains(x));
                    if is_dead_id(t, x) {
                        let j = choose|j: int| 0 <= j < t.len() && !is_alive(t[j]) && t[j].id == x;
                        assert(g[j] == t[j]);
                    }
                } else {
                    assert(g[g.len() - 1].id == x);
                }
            }
            if order.contains(x) {
                assert(p.contains(x));
                let k = choose|k: int| 0 <= k < p.len() && p[k] == x;
                assert(r[k] == x);
            }
            if is_dead_id(g, x) {
                let j = choose|j: int| 0 <= j < g.len() && !is_alive(g[j]) && g[j].id == x;
                if j < t.len() {
                    assert(t[j] == g[j]);
                    assert(is_dead_id(t, x));
                    assert(p.contains(x));
                    let k = choose|k: int| 0 <= k < p.len() && p[k] == x;
                    assert(r[k] == x);
                } else if !p.contains(x) {
                    assert(r[p.len() as int] == x);
                } else {
                    let k = choose|k: int| 0 <= k < p.len() && p[k] == x;
                    assert(r[k] == x);
                }
            }
        }
        assert(p.is_prefix_of(r));
    }
}

proof fn lemma_reverse(s: Seq<Seq<char>>)
    ensures
        s.reverse().len() == s.len(),
        forall|x: Seq<char>| #[trigger] s.reverse().contains(x) <==> s.contains(x),
        s.no_duplicates() ==> s.reverse().no_duplicates(),
{
    let r = s.reverse();
    if s.len() == 0 {
        assert(r =~= s);
    } else {
        assert forall|x: Seq<char>| #[trigger] r.contains(x) <==> s.contains(x) by {
            if r.contains(x) {
                let k = choose|k: int| 0 <= k < r.len() && r[k] == x;
                assert(s[s.len() - 1 - k] == x);
            }
            if s.contains(x) {
                let k = choose|k: int| 0 <= k < s.len() && s[k] == x;
                assert(r[s.len() - 1 - k] == x);
            }
        }
        if s.no_duplicates() {
            assert forall|i: int, j: int| 0 <= i < r.len() && 0 <= j < r.len() && i != j implies r[i]
                != r[j] by {
                assert(r[i] == s[s.len() - 1 - i]);
                assert(r[j] == s[s.len() - 1 - j]);
            }
        }
    }
}

/// A finished game ranks every snake exactly once: when snake ids are
/// distinct and the recorded eliminations are exactly the dead snakes, the
/// placements list each snake id once and nothing else.
pub proof fn lemma_placements_rank_every_snake(g: Seq<SnakeState>, order: Seq<Seq<char>>)
    requires
        id_seq(g).no_duplicates(),
        order_sound(g, order),
        order_complete(g, order),
    ensures
        placement_ids(g, order).no_duplicates(),
        forall|x: Seq<char>| #[trigger] placement_ids(g, order).contains(x) <==> id_seq(g).contains(x),
        placement_ids(g, order).len() == g.len(),
{
    let a = alive_ids(g);
    let r = order.reverse();
    let p = placement_ids(g, order);
    lemma_alive_ids(g);
    lemma_reverse(order);
    assert forall|i: int, j: int| 0 <= i < a.len() && 0 <= j < r.len() implies a[i] != r[j] by {
        assert(a.contains(a[i]));
        assert(r.contains(r[j]));
        assert(order.contains(r[j]));
        if a[i] == r[j] {
            let j1 = choose|j1: int| 0 <= j1 < g.len() && is_alive(g[j1]) && g[j1].id == a[i];
            let j2 = choose|j2: int| 0 <= j2 < g.len() && !is_alive(g[j2]) && g[j2].id == r[j];
            assert(id_seq(g)[j1] == id_seq(g)[j2]);
        }
    }
    vstd::seq_lib::lemma_no_dup_in_concat(a, r);
    assert forall|x: Seq<char>| #[trigger] p.contains(x) <==> id_seq(g).contains(x) by {
        if p.contains(x) {
            let k = choose|k: int| 0 <= k < p.len() && p[k] == x;
            if k < a.len() {
                assert(a.contains(x));
            } else {
                assert(r[k - a.len()] == x);
                assert(r.contains(x));
                assert(order.contains(x));
            }
            let j = choose|j: int| 0 <= j < g.len() && g[j].id == x;
            assert(id_seq(g)[j] == x);
        }
        if id_seq(g).contains(x) {
            let j = choose|j: int| 0 <= j < id_seq(g).len() && id_seq(g)[j] == x;
            if is_alive(g[j]) {
                assert(a.contains(x));
                let k = choose|k: int| 0 <= k < a.len() && a[k] == x;
                assert(p[k] == x);
            } else {
                assert(is_dead_id(g, x));
                assert(r.contains(x));
                let k = choose|k: int| 0 <= k < r.len() && r[k] == x;
                assert(p[a.len() + k] == x);
            }
        }
    }
    p.unique_seq_to_set();
    id_seq(g).unique_seq_to_set();
    assert(p.to_set() =~= id_seq(g).to_set());
}

} // verus!

verus! {

/// Whether snake `i` collides: its head is off the board, on its own body
/// past the head, on the body past the head of another living snake, or on
/// the head of another living snake at least as long.
pub open spec fn collides_with_wall_or_living(g: Seq<SnakeState>, i: int, width: int, height: int) -> bool {
    let s = g[i];
    ||| out_of_bounds(s.head, width, height)
    ||| in_tail(s.body, s.head)
    ||| exists|j: int| 0 <= j < g.len() && j != i && is_alive(g[j]) && #[trigger] in_tail(g[j].body, s.head)
    ||| exists|j: int|
        0 <= j < g.len() && j != i && is_alive(g[j]) && #[trigger] g[j].head == s.head
            && s.body.len() <= g[j].body.len()
}

/// Who is eliminated: among snakes with distinct ids, a living snake is
/// set to health 0 exactly when it collides with a wall, itself, the body of
/// another living snake, or the head of another living snake at least as
/// long; every other snake is left as it was. Dead snakes' bodies and heads
/// eliminate nobody.
pub proof fn lemma_elimination_rule(g: Seq<SnakeState>, width: int, height: int, i: int)
    requires
        id_seq(g).no_duplicates(),
        0 <= i < g.len(),
    ensures
        eliminated_all(g, width, height).len() == g.len(),
        eliminated_all(g, width, height)[i] == if is_alive(g[i]) && collides_with_wall_or_living(
            g,
            i,
            width,
            height,
        ) {
            SnakeState { health: 0, ..g[i] }
        } else {
            g[i]
        },
{
    assert forall|j: int| 0 <= j < g.len() && j != i implies g[j].id != g[i].id by {
        assert(id_seq(g)[j] == g[j].id);
        assert(id_seq(g)[i] == g[i].id);
    }
    let s = g[i];
    let other_body = exists|j: int|
        0 <= j < g.len() && j != i && is_alive(g[j]) && #[trigger] in_tail(g[j].body, s.head);
    let other_head = exists|j: int|
        0 <= j < g.len() && j != i && is_alive(g[j]) && #[trigger] g[j].head == s.head
            && s.body.len() <= g[j].body.len();
    assert(super::rules::hits_other_body(g, i) == other_body) by {
        if super::rules::hits_other_body(g, i) {
            let j = choose|j: int|
                0 <= j < g.len() && g[j].id != g[i].id && is_alive(g[j]) && #[trigger] in_tail(
                    g[j].body,
                    g[i].head,
                );
            assert(j != i);
        }
        if other_body {
            let j = choose|j: int|
                0 <= j < g.len() && j != i && is_alive(g[j]) && #[trigger] in_tail(g[j].body, s.head);
            assert(g[j].id != g[i].id);
        }
    }
    assert(super::rules::loses_head_on(g, i) == other_head) by {
        if super::rules::loses_head_on(g, i) {
            let j = choose|j: int|
                0 <= j < g.len() && g[j].id != g[i].id && is_alive(g[j]) && #[trigger] g[j].head
                    == g[i].head && g[i].body.len() <= g[j].body.len();
            assert(j != i);
        }
        if other_head {
            let j = choose|j: int|
                0 <= j < g.len() && j != i && is_alive(g[j]) && #[trigger] g[j].head == s.head
                    && s.body.len() <= g[j].body.len();
            assert(g[j].id != g[i].id);
        }
    }
    assert(super::rules::hits_itself(s) == in_tail(s.body, s.head));
    assert(super::rules::doomed(g, i, width, height) == (is_alive(s) && collides_with_wall_or_living(
        g,
        i,
        width,
        height,
    )));
    assert(super::rules::eliminated(g, i, width, height) == super::rules::doomed(g, i, width, height))
        by {
        if exists|k: int|
            0 <= k < g.len() && g[k].id == g[i].id && super::rules::doomed(g, k, width, height) {
            let k = choose|k: int|
                0 <= k < g.len() && g[k].id == g[i].id && super::rules::doomed(g, k, width, height);
            if k != i {
                assert(g[k].id != g[i].id);
            }
        }
        assert forall|k: int| 0 <= k < i implies g[k].id != g[i].id by {}
    }
    assert(super::rules::first_with_id(g, i));
}

/// Who one turn eliminates: among snakes with distinct ids, after moving,
/// starving and feeding, a living snake ends the turn with health 0 exactly
/// when its new head is off the board, on its own body, on the body of
/// another snake still alive, or on the head of another snake still alive
/// that is at least as long; otherwise it keeps its state. A dead snake's
/// leftover body or head is no obstacle.
pub proof fn lemma_turn_eliminates_only_on_collision_with_the_living(
    game: Game,
    moves: Seq<(String, Move)>,
    r: Game,
    i: int,
)
    requires
        turn_applied(game, moves, r),
        id_seq(states(game.board.snakes@)).no_duplicates(),
        0 <= i < game.board.snakes@.len(),
    ensures
        ({
            let f = after_feeding(states(game.board.snakes@), game.board.food@, moves);
            states(r.board.snakes@)[i] == if is_alive(f[i]) && collides_with_wall_or_living(
                f,
                i,
                rule_width(game),
                rule_height(game),
            ) {
                SnakeState { health: 0, ..f[i] }
            } else {
                f[i]
            }
        }),
{
    let g = states(game.board.snakes@);
    let f = after_feeding(g, game.board.food@, moves);
    assert(f.len() == g.len());
    assert(id_seq(f) =~= id_seq(g)) by {
        assert forall|j: int| 0 <= j < g.len() implies id_seq(f)[j] == id_seq(g)[j] by {}
    }
    lemma_elimination_rule(f, rule_width(game), rule_height(game), i);
}

/// Across one turn every snake keeps its id and a dead snake stays dead.
pub proof fn lemma_turn_keeps_ids_and_the_dead(game: Game, moves: Seq<(String, Move)>, r: Game)
    requires
        turn_applied(game, moves, r),
    ensures
        id_seq(states(r.board.snakes@)) == id_seq(states(game.board.snakes@)),
        forall|j: int|
            0 <= j < game.board.snakes@.len() && !is_alive(states(game.board.snakes@)[j]) ==> !is_alive(
                #[trigger] states(r.board.snakes@)[j],
            ),
{
    let g = states(game.board.snakes@);
    let n = states(r.board.snakes@);
    assert(n.len() == g.len());
    assert forall|j: int| 0 <= j < g.len() implies #[trigger] n[j].id == g[j].id && (!is_alive(g[j])
        ==> !is_alive(n[j])) by {
    }
    assert(id_seq(n) =~= id_seq(g));
}

/// Across one turn a snake's body keeps its length, or grows by one segment
/// when the snake was alive and ate; a living snake's health drops by one,
/// is restored to the maximum by eating, or falls to zero; a dead snake's
/// body stays as it was and its health too, or is set to zero.
pub proof fn lemma_turn_lengths_and_health(game: Game, moves: Seq<(String, Move)>, r: Game)
    requires
        turn_applied(game, moves, r),
    ensures
        forall|j: int|
            0 <= j < game.board.snakes@.len() ==> {
                let o = #[trigger] states(game.board.snakes@)[j];
                let n = states(r.board.snakes@)[j];
                &&& n.body.len() == o.body.len() || (is_alive(o) && o.body.len() > 0
                    && n.body.len() == o.body.len() + 1)
                &&& is_alive(o) ==> (n.health == 0 || n.health == o.health - 1 || n.health
                    == super::rules::SNAKE_MAX_HEALTH)
                &&& !is_alive(o) ==> n.body == o.body && (n.health == o.health || n.health == 0)
            },
{
    let g = states(game.board.snakes@);
    assert forall|j: int| 0 <= j < g.len() implies {
        let o = #[trigger] g[j];
        let n = states(r.board.snakes@)[j];
        &&& n.body.len() == o.body.len() || (is_alive(o) && o.body.len() > 0 && n.body.len()
            == o.body.len() + 1)
        &&& is_alive(o) ==> (n.health == 0 || n.health == o.health - 1 || n.health
            == super::rules::SNAKE_MAX_HEALTH)
        &&& !is_alive(o) ==> n.body == o.body && (n.health == o.health || n.health == 0)
    } by {
        let o = g[j];
        let food = game.board.food@;
        let ma = super::rules::moved_all(g, moves);
        let sa = super::rules::starved_all(ma);
        let fa = super::rules::fed_all(sa, food);
        let m = ma[j];
        let st = sa[j];
        let f = fa[j];
        assert(m == super::rules::moved(o, super::rules::move_for(moves, o.id)));
        assert(st == super::rules::starved(m));
        assert(f == super::rules::fed(st, food));
        assert(fa == super::rules::after_feeding(g, food, moves));
        let e = super::rules::eliminated_all(fa, super::rules::rule_width(game), super::rules::rule_height(game));
        assert(states(r.board.snakes@)[j] == e[j]);
        assert(e[j].body == f.body);
        assert(e[j].health == 0 || e[j].health == f.health);
        if is_alive(o) {
            let nh = spec_step(o.head, super::rules::move_for(moves, o.id));
            assert(m.body == (seq![nh] + o.body).drop_last());
            assert(m.body.len() == o.body.len());
        } else {
            assert(m == o);
        }
        assert(st.body == m.body);
    }
}

proof fn lemma_remove_each_shrinks<T>(s: Seq<T>, idxs: Seq<int>)
    requires
        removal_in_bounds(s, idxs),
    ensures
        remove_each(s, idxs).len() == s.len() - idxs.len(),
        forall|x: T| #[trigger] remove_each(s, idxs).contains(x) ==> s.contains(x),
    decreases idxs.len(),
{
    if idxs.len() > 0 {
        let p = remove_each(s, idxs.drop_last());
        lemma_remove_each_shrinks(s, idxs.drop_last());
        let r = p.remove(idxs.last());
        assert forall|x: T| #[trigger] r.contains(x) implies s.contains(x) by {
            let j = choose|j: int| 0 <= j < r.len() && r[j] == x;
            if j < idxs.last() {
                assert(p[j] == x);
            } else {
                assert(p[j + 1] == x);
            }
            assert(p.contains(x));
        }
    }
}

/// A turn only takes food away: one item per distinct eaten food index goes,
/// and every item left was there before.
pub proof fn lemma_turn_only_removes_food(game: Game, moves: Seq<(String, Move)>, r: Game)
    requires
        turn_applied(game, moves, r),
    ensures
        r.board.food@.len() == game.board.food@.len() - super::rules::dedup_removal_order(
            states(game.board.snakes@),
            game.board.food@,
            moves,
        ).len(),
        forall|p: Position| #[trigger] r.board.food@.contains(p) ==> game.board.food@.contains(p),
{
    super::rules::lemma_dedup_removal_fits(states(game.board.snakes@), game.board.food@, moves);
    lemma_remove_each_shrinks(
        game.board.food@,
        super::rules::dedup_removal_order(states(game.board.snakes@), game.board.food@, moves),
    );
}

/// Recording the dead after a turn keeps the record sound and makes it
/// complete.
pub proof fn lemma_recording_after_turn(
    game: Game,
    moves: Seq<(String, Move)>,
    r: Game,
    order: Seq<Seq<char>>,
)
    requires
        turn_applied(game, moves, r),
        order_sound(states(game.board.snakes@), order),
    ensures
        order_sound(states(r.board.snakes@), record_dead(order, states(r.board.snakes@))),
        order_complete(states(r.board.snakes@), record_dead(order, states(r.board.snakes@))),
{
    let g = states(game.board.snakes@);
    let n = states(r.board.snakes@);
    lemma_turn_keeps_ids_and_the_dead(game, moves, r);
    lemma_record_dead(order, n);
    assert forall|x: Seq<char>| #[trigger] order.contains(x) implies is_dead_id(n, x) by {
        let j = choose|j: int| 0 <= j < g.len() && !is_alive(g[j]) && g[j].id == x;
        assert(id_seq(n)[j] == id_seq(g)[j]);
        assert(!is_alive(n[j]));
    }
}

/// Whether a game has ended: at most one snake alive, or the turn limit
/// reached.
pub open spec fn game_over(g: Game) -> bool {
    alive_count(states(g.board.snakes@)) <= 1 || g.turn >= MAX_TURNS
}

/// `p` ranks every snake of `g` exactly once: it lists each snake id once
/// and nothing else.
pub open spec fn ranks_every_snake(p: Seq<Seq<char>>, g: Seq<SnakeState>) -> bool {
    &&& p.no_duplicates()
    &&& p.len() == g.len()
    &&& forall|x: Seq<char>| #[trigger] p.contains(x) <==> id_seq(g).contains(x)
}

/// The outcome of a game: snake ids from winner to last place and the turn
/// the game ended on.
pub struct GameResult {
    pub placements: Vec<String>,
    pub final_turn: i32,
}

/// A game in progress together with the order in which snakes were
/// eliminated.
pub struct GameRun {
    pub game: Game,
    pub elimination_order: Vec<String>,
}

impl GameRun {
    pub open spec fn over(&self) -> bool {
        alive_count(states(self.game.board.snakes@)) <= 1 || self.game.turn >= MAX_TURNS
    }

    /// The elimination record holds distinct ids of dead snakes.
    pub open spec fn record_sound(&self) -> bool {
        order_sound(states(self.game.board.snakes@), string_views(self.elimination_order@))
    }

    /// The elimination record holds exactly the dead snakes, each once.
    pub open spec fn record_exact(&self) -> bool {
        &&& self.record_sound()
        &&& order_complete(states(self.game.board.snakes@), string_views(self.elimination_order@))
    }

    /// Starts a run; nothing has been eliminated yet, so the record is exact
    /// when every snake is alive.
    pub fn new(game: Game) -> (r: GameRun)
        ensures
            r.game == game,
            r.elimination_order@.len() == 0,
            r.record_sound(),
            (forall|j: int| 0 <= j < game.board.snakes@.len() ==> is_alive(#[trigger] states(game.board.snakes@)[j]))
                ==> r.record_exact(),
    {
        let r = GameRun { game, elimination_order: Vec::new() };
        proof {
            assert(string_views(r.elimination_order@) =~= Seq::<Seq<char>>::empty());
        }
        r
    }

    /// The game ends when at most one snake is alive or the turn limit is
    /// reached.
    pub fn is_over(&self) -> (r: bool)
        ensures
            r == self.over(),
    {
        is_game_over(&self.game) || self.game.turn >= MAX_TURNS
    }

    /// Plays one turn and records the snakes that died; returns their ids.
    pub fn advance(&mut self, moves: &[(String, Move)]) -> (newly: Vec<String>)
        requires
            !old(self).over(),
        ensures
            turn_applied(old(self).game, moves@, final(self).game),
            final(self).game.turn == old(self).game.turn + 1,
            string_views(final(self).elimination_order@) == record_dead(
                string_views(old(self).elimination_order@),
                states(final(self).game.board.snakes@),
            ),
            string_views(final(self).elimination_order@) == string_views(
                old(self).elimination_order@,
            ) + string_views(newly@),
            id_seq(states(final(self).game.board.snakes@)) == id_seq(states(old(self).game.board.snakes@)),
            old(self).record_sound() ==> final(self).record_exact(),
    {
        let ghost before = self.game;
        let ghost order_before = string_views(self.elimination_order@);
        let mut taken = placeholder_game();
        std::mem::swap(&mut taken, &mut self.game);
        let mut game = apply_turn(taken, moves);
        game.turn = game.turn + 1;
        let ghost g = states(game.board.snakes@);
        let ghost o0 = string_views(self.elimination_order@);
        let mut newly: Vec<String> = Vec::new();
        let n = game.board.snakes.len();
        let mut i: usize = 0;
        while i < n
            invariant
                n == game.board.snakes@.len(),
                g == states(game.board.snakes@),
                i <= n,
                string_views(self.elimination_order@) == record_dead(o0, g.subrange(0, i as int)),
                string_views(self.elimination_order@) == o0 + string_views(newly@),
            decreases n - i,
        {
            let ghost t = g.subrange(0, i + 1);
            assert(t.drop_last() =~= g.subrange(0, i as int));
            if game.board.snakes[i].health <= 0 && !contains_string(
                &self.elimination_order,
                &game.board.snakes[i].id,
            ) {
                let id = game.board.snakes[i].id.clone();
                let id2 = game.board.snakes[i].id.clone();
                self.elimination_order.push(id);
                newly.push(id2);
                assert(string_views(self.elimination_order@) =~= record_dead(o0, t));
                assert(string_views(self.elimination_order@) =~= o0 + string_views(newly@));
            }
            i = i + 1;
        }
        assert(g.subrange(0, n as int) =~= g);
        self.game = game;
        proof {
            lemma_turn_keeps_ids_and_the_dead(before, moves@, self.game);
            if order_sound(states(before.board.snakes@), order_before) {
                lemma_recording_after_turn(before, moves@, self.game, order_before);
            }
        }
        newly
    }

    /// Ids from winner to last place: the snakes still alive in board order,
    /// then the eliminated ones from the last eliminated to the first.
    pub fn placements(&self) -> (p: Vec<String>)
        ensures
            string_views(p@) == placement_ids(
                states(self.game.board.snakes@),
                string_views(self.elimination_order@),
            ),
    {
        let ghost g = states(self.game.board.snakes@);
        let mut p: Vec<String> = Vec::new();
        let n = self.game.board.snakes.len();
        let mut i: usize = 0;
        while i < n
            invariant
                n == self.game.board.snakes@.len(),
                g == states(self.game.board.snakes@),
                i <= n,
                string_views(p@) == alive_ids(g.subrange(0, i as int)),
            decreases n - i,
        {
            let ghost t = g.subrange(0, i + 1);
            assert(t.drop_last() =~= g.subrange(0, i as int));
            if self.game.board.snakes[i].health > 0 {
                let ghost before = string_views(p@);
                p.push(self.game.board.snakes[i].id.clone());
                assert(string_views(p@) =~= before.push(g[i as int].id));
            }
            i = i + 1;
        }
        assert(g.subrange(0, n as int) =~= g);
        let ghost a = string_views(p@);
        let ghost o = string_views(self.elimination_order@);
        let m = self.elimination_order.len();
        let mut k: usize = 0;
        while k < m
            invariant
                m == self.elimination_order@.len(),
                o == string_views(self.elimination_order@),
                k <= m,
                string_views(p@) == a + o.reverse().subrange(0, k as int),
            decreases m - k,
        {
            let ghost before = string_views(p@);
            let e = self.elimination_order[m - 1 - k].clone();
            assert(e@ == o[m - 1 - k]);
            p.push(e);
            assert(o.len() == m);
            assert(o.reverse()[k as int] == o[m - 1 - k]);
            assert(string_views(p@) =~= before.push(o[m - 1 - k]));
            assert(string_views(p@) =~= a + o.reverse().subrange(0, k + 1));
            k = k + 1;
        }
        assert(o.reverse().subrange(0, m as int) =~= o.reverse());
        p
    }

    /// Ends the run. With distinct ids and an exact record, every snake is
    /// ranked exactly once.
    pub fn finish(self) -> (r: GameResult)
        ensures
            string_views(r.placements@) == placement_ids(
                states(self.game.board.snakes@),
                string_views(self.elimination_order@),
            ),
            r.final_turn == self.game.turn,
            (id_seq(states(self.game.board.snakes@)).no_duplicates() && self.record_exact())
                ==> ranks_every_snake(string_views(r.placements@), states(self.game.board.snakes@)),
    {
        proof {
            if id_seq(states(self.game.board.snakes@)).no_duplicates() && self.record_exact() {
                lemma_placements_rank_every_snake(
                    states(self.game.board.snakes@),
                    string_views(self.elimination_order@),
                );
            }
        }
        let placements = self.placements();
        GameResult { placements, final_turn: self.game.turn }
    }
}

/// Whether `v` holds a string equal to `s`.
pub fn contains_string(v: &Vec<String>, s: &String) -> (r: bool)
    ensures
        r == string_views(v@).contains(s@),
{
    let n = v.len();
    let mut k: usize = 0;
    while k < n
        invariant
            n == v@.len(),
            k <= n,
            forall|j: int| 0 <= j < k ==> v@[j]@ != s@,
        decreases n - k,
    {
        if v[k] == *s {
            assert(string_views(v@)[k as int] == s@);
            return true;
        }
        k = k + 1;
    }
    proof {
        if string_views(v@).contains(s@) {
            let j = choose|j: int| 0 <= j < n && string_views(v@)[j] == s@;
            assert(v@[j]@ == s@);
        }
    }
    false
}

/// An empty game, used while a run's game is being replaced: a board of
/// size zero with no snakes, food or hazards, on turn 0, whose "you" is a
/// dead snake without a body, and whose names are all empty.
fn placeholder_game() -> (r: Game)
    ensures
        r.board.width == 0,
        r.board.height == 0,
        r.board.snakes@.len() == 0,
        r.board.food@.len() == 0,
        r.board.hazards@.len() == 0,
        r.turn == 0,
        r.you.id@.len() == 0,
        r.you.name@.len() == 0,
        r.you.body@.len() == 0,
        r.you.head == (Position { x: 0, y: 0 }),
        r.you.health == 0,
        r.you.shout is None,
        r.you.actual_length is None,
        r.game.id@.len() == 0,
        r.game.ruleset.name@.len() == 0,
        r.game.ruleset.version@.len() == 0,
        r.game.ruleset.settings is None,
        r.game.timeout == 0,
        r.game.map is None,
        r.game.source is None,
{
    Game {
        you: BattleSnake {
            id: String::new(),
            name: String::new(),
            head: Position { x: 0, y: 0 },
            body: std::collections::VecDeque::new(),
            health: 0,
            shout: None,
            actual_length: None,
        },
        board: super::wire::Board {
            height: 0,
            width: 0,
            food: Vec::new(),
            snakes: Vec::new(),
            hazards: Vec::new(),
        },
        turn: 0,
        game: super::wire::NestedGame {
            id: String::new(),
            ruleset: super::wire::Ruleset { name: String::new(), version: String::new(), settings: None },
            timeout: 0,
            map: None,
            source: None,
        },
    }
}

} // verus!
