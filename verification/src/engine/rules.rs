//! The turn rules: movement, starvation, feeding and elimination.

use std::collections::VecDeque;
use vstd::prelude::*;

use super::wire::{spec_step, BattleSnake, Game, Move, Position};

verus! {

/// Health a snake has when it starts and right after it eats.
pub const SNAKE_MAX_HEALTH: i32 = 100;

/// The part of a snake that the turn rules read and change.
pub struct SnakeState {
    pub id: Seq<char>,
    pub head: Position,
    pub body: Seq<Position>,
    pub health: int,
}

pub open spec fn state_of(s: BattleSnake) -> SnakeState {
    SnakeState { id: s.id@, head: s.head, body: s.body@, health: s.health as int }
}

pub open spec fn states(v: Seq<BattleSnake>) -> Seq<SnakeState> {
    v.map_values(|s: BattleSnake| state_of(s))
}

pub open spec fn is_alive(s: SnakeState) -> bool {
    s.health > 0
}

// ---------------------------------------------------------------------------
// Which move each snake makes
// ---------------------------------------------------------------------------

/// `k` is the first entry of `moves` that is addressed to snake `id`.
pub open spec fn is_first_move_for(moves: Seq<(String, Move)>, id: Seq<char>, k: int) -> bool {
    &&& 0 <= k < moves.len()
    &&& moves[k].0@ == id
    &&& forall|j: int| 0 <= j < k ==> moves[j].0@ != id
}

/// The move snake `id` makes: the first one addressed to it, `Up` if there
/// is none.
pub open spec fn move_for(moves: Seq<(String, Move)>, id: Seq<char>) -> Move {
    if exists|k: int| is_first_move_for(moves, id, k) {
        moves[choose|k: int| is_first_move_for(moves, id, k)].1
    } else {
        Move::Up
    }
}

/// A living snake steps its head forward and drops its last segment.
pub open spec fn moved(s: SnakeState, m: Move) -> SnakeState {
    if is_alive(s) {
        let nh = spec_step(s.head, m);
        SnakeState { head: nh, body: (seq![nh] + s.body).drop_last(), ..s }
    } else {
        s
    }
}

pub open spec fn moved_all(g: Seq<SnakeState>, moves: Seq<(String, Move)>) -> Seq<SnakeState> {
    Seq::new(g.len(), |i: int| moved(g[i], move_for(moves, g[i].id)))
}

/// Each living snake loses one point of health.
pub open spec fn starved(s: SnakeState) -> SnakeState {
    if is_alive(s) {
        SnakeState { health: s.health - 1, ..s }
    } else {
        s
    }
}

pub open spec fn starved_all(g: Seq<SnakeState>) -> Seq<SnakeState> {
    Seq::new(g.len(), |i: int| starved(g[i]))
}

// ---------------------------------------------------------------------------
// Feeding
// ---------------------------------------------------------------------------

/// A living snake whose head is on a food cell eats it.
pub open spec fn eats(s: SnakeState, food: Seq<Position>) -> bool {
    is_alive(s) && food.contains(s.head)
}

/// An eating snake is back at full health and grows by repeating its tail.
pub open spec fn fed(s: SnakeState, food: Seq<Position>) -> SnakeState {
    if eats(s, food) {
        SnakeState {
            health: SNAKE_MAX_HEALTH as int,
            body: if s.body.len() > 0 { s.body.push(s.body.last()) } else { s.body },
            ..s
        }
    } else {
        s
    }
}

pub open spec fn fed_all(g: Seq<SnakeState>, food: Seq<Position>) -> Seq<SnakeState> {
    Seq::new(g.len(), |i: int| fed(g[i], food))
}

/// `k` is the first index of `p` in `s`.
pub open spec fn is_first_index<T>(s: Seq<T>, p: T, k: int) -> bool {
    &&& 0 <= k < s.len()
    &&& s[k] == p
    &&& forall|j: int| 0 <= j < k ==> s[j] != p
}

pub open spec fn first_index<T>(s: Seq<T>, p: T) -> int {
    choose|k: int| is_first_index(s, p, k)
}

/// The food indices eaten, one per eating snake, in snake order.
pub open spec fn eaten_indices(g: Seq<SnakeState>, food: Seq<Position>) -> Seq<int>
    decreases g.len(),
{
    if g.len() == 0 {
        Seq::empty()
    } else {
        let prev = eaten_indices(g.drop_last(), food);
        if eats(g.last(), food) {
            prev.push(first_index(food, g.last().head))
        } else {
            prev
        }
    }
}

/// Inserts `x` into a sequence sorted from largest to smallest.
pub open spec fn insert_desc(x: int, s: Seq<int>) -> Seq<int>
    decreases s.len(),
{
    if s.len() == 0 {
        seq![x]
    } else if x >= s[0] {
        seq![x] + s
    } else {
        seq![s[0]] + insert_desc(x, s.drop_first())
    }
}

/// The sequence sorted from largest to smallest.
pub open spec fn sort_desc(s: Seq<int>) -> Seq<int>
    decreases s.len(),
{
    if s.len() == 0 {
        s
    } else {
        insert_desc(s.last(), sort_desc(s.drop_last()))
    }
}

/// Removes, one after another, the entries at the given indices.
pub open spec fn remove_each<T>(s: Seq<T>, idxs: Seq<int>) -> Seq<T>
    decreases idxs.len(),
{
    if idxs.len() == 0 {
        s
    } else {
        remove_each(s, idxs.drop_last()).remove(idxs.last())
    }
}

/// Every removal of `remove_each` is within bounds when it happens.
pub open spec fn removal_in_bounds<T>(s: Seq<T>, idxs: Seq<int>) -> bool
    decreases idxs.len(),
{
    if idxs.len() == 0 {
        true
    } else {
        &&& removal_in_bounds(s, idxs.drop_last())
        &&& 0 <= idxs.last() < remove_each(s, idxs.drop_last()).len()
    }
}

// ---------------------------------------------------------------------------
// Elimination
// ---------------------------------------------------------------------------

pub open spec fn out_of_bounds(p: Position, width: int, height: int) -> bool {
    p.x < 0 || p.x >= width || p.y < 0 || p.y >= height
}

/// `p` lies on `body` past its first segment.
pub open spec fn in_tail(body: Seq<Position>, p: Position) -> bool {
    exists|k: int| 1 <= k < body.len() && body[k] == p
}

/// The head lies on the snake's own body, its first segment aside.
pub open spec fn hits_itself(s: SnakeState) -> bool {
    in_tail(s.body, s.head)
}

/// The head of snake `i` lies on the body (first segment aside) of another
/// living snake.
pub open spec fn hits_other_body(g: Seq<SnakeState>, i: int) -> bool {
    exists|j: int|
        0 <= j < g.len() && g[j].id != g[i].id && is_alive(g[j]) && #[trigger] in_tail(g[j].body, g[i].head)
}

/// Snake `i` meets the head of another living snake that is at least as long.
pub open spec fn loses_head_on(g: Seq<SnakeState>, i: int) -> bool {
    exists|j: int|
        0 <= j < g.len() && g[j].id != g[i].id && is_alive(g[j]) && #[trigger] g[j].head
            == g[i].head && g[i].body.len() <= g[j].body.len()
}

/// Snake `i` is alive and collides with a wall, itself or another snake.
pub open spec fn doomed(g: Seq<SnakeState>, i: int, width: int, height: int) -> bool {
    &&& is_alive(g[i])
    &&& {
        ||| out_of_bounds(g[i].head, width, height)
        ||| hits_itself(g[i])
        ||| hits_other_body(g, i)
        ||| loses_head_on(g, i)
    }
}

/// No earlier snake has the same id as snake `j`.
pub open spec fn first_with_id(g: Seq<SnakeState>, j: int) -> bool {
    forall|k: int| 0 <= k < j ==> g[k].id != g[j].id
}

/// Eliminations are applied by id, to the first snake with that id.
pub open spec fn eliminated(g: Seq<SnakeState>, j: int, width: int, height: int) -> bool {
    &&& first_with_id(g, j)
    &&& exists|i: int| 0 <= i < g.len() && g[i].id == g[j].id && doomed(g, i, width, height)
}

pub open spec fn eliminated_all(g: Seq<SnakeState>, width: int, height: int) -> Seq<SnakeState> {
    Seq::new(
        g.len(),
        |j: int|
            if eliminated(g, j, width, height) {
                SnakeState { health: 0, ..g[j] }
            } else {
                g[j]
            },
    )
}

} // verus!

verus! {

/// Name, shout and length hint, which the turn rules never change.
pub open spec fn same_details(a: BattleSnake, b: BattleSnake) -> bool {
    &&& a.name@ == b.name@
    &&& a.shout == b.shout
    &&& a.actual_length == b.actual_length
}

pub open spec fn details_kept(a: Seq<BattleSnake>, b: Seq<BattleSnake>) -> bool {
    &&& a.len() == b.len()
    &&& forall|i: int| 0 <= i < a.len() ==> same_details(#[trigger] a[i], b[i])
}

/// The move addressed to snake `id`, `Up` when there is none.
pub fn find_move(moves: &[(String, Move)], id: &String) -> (m: Move)
    ensures
        m == move_for(moves@, id@),
{
    let n = moves.len();
    let mut k: usize = 0;
    while k < n
        invariant
            n == moves@.len(),
            k <= n,
            forall|j: int| 0 <= j < k ==> moves@[j].0@ != id@,
        decreases n - k,
    {
        if moves[k].0 == *id {
            assert(is_first_move_for(moves@, id@, k as int));
            proof {
                let c = choose|c: int| is_first_move_for(moves@, id@, c);
                assert(c == k as int) by {
                    if c < k {
                    } else if c > k {
                        assert(moves@[k as int].0@ != id@);
                    }
                }
            }
            return moves[k].1;
        }
        k = k + 1;
    }
    assert(!exists|c: int| is_first_move_for(moves@, id@, c));
    Move::Up
}

/// Phase one: every living snake moves.
pub fn move_snakes(snakes: &mut Vec<BattleSnake>, moves: &[(String, Move)])
    ensures
        details_kept(old(snakes)@, final(snakes)@),
        states(final(snakes)@) == moved_all(states(old(snakes)@), moves@),
{
    let n = snakes.len();
    let mut i: usize = 0;
    while i < n
        invariant
            n == old(snakes)@.len(),
            i <= n,
            details_kept(old(snakes)@, snakes@),
            forall|j: int| i <= j < n ==> #[trigger] snakes@[j] == old(snakes)@[j],
            forall|j: int|
                0 <= j < i ==> state_of(#[trigger] snakes@[j]) == moved(
                    state_of(old(snakes)@[j]),
                    move_for(moves@, old(snakes)@[j].id@),
                ),
        decreases n - i,
    {
        if snakes[i].health > 0 {
            let m = find_move(moves, &snakes[i].id);
            let new_head = snakes[i].head.step(m);
            snakes[i].body.push_front(new_head);
            let _ = snakes[i].body.pop_back();
            snakes[i].head = new_head;
        }
        i = i + 1;
    }
    assert(states(snakes@) =~= moved_all(states(old(snakes)@), moves@));
}

} // verus!

verus! {

pub open spec fn as_ints(v: Seq<usize>) -> Seq<int> {
    v.map_values(|x: usize| x as int)
}

/// Phase two: every living snake loses one point of health.
pub fn reduce_health(snakes: &mut Vec<BattleSnake>)
    ensures
        details_kept(old(snakes)@, final(snakes)@),
        states(final(snakes)@) == starved_all(states(old(snakes)@)),
{
    let n = snakes.len();
    let mut i: usize = 0;
    while i < n
        invariant
            n == old(snakes)@.len(),
            i <= n,
            details_kept(old(snakes)@, snakes@),
            forall|j: int| i <= j < n ==> #[trigger] snakes@[j] == old(snakes)@[j],
            forall|j: int|
                0 <= j < i ==> state_of(#[trigger] snakes@[j]) == starved(
                    state_of(old(snakes)@[j]),
                ),
        decreases n - i,
    {
        if snakes[i].health > 0 {
            snakes[i].health = snakes[i].health - 1;
        }
        i = i + 1;
    }
    assert(states(snakes@) =~= starved_all(states(old(snakes)@)));
}

/// The first index of `p` in `food`, if `p` is there.
pub fn find_position(food: &Vec<Position>, p: Position) -> (r: Option<usize>)
    ensures
        r is Some <==> food@.contains(p),
        r matches Some(k) ==> is_first_index(food@, p, k as int) && k as int == first_index(
            food@,
            p,
        ),
{
    let n = food.len();
    let mut k: usize = 0;
    while k < n
        invariant
            n == food@.len(),
            k <= n,
            forall|j: int| 0 <= j < k ==> food@[j] != p,
        decreases n - k,
    {
        if food[k] == p {
            assert(is_first_index(food@, p, k as int));
            proof {
                let c = choose|c: int| is_first_index(food@, p, c);
                assert(c == k as int) by {
                    if c > k {
                        assert(food@[k as int] == p);
                    }
                }
            }
            return Some(k);
        }
        k = k + 1;
    }
    None
}

/// Phase three: living snakes on food eat it. Returns the eaten food
/// indices, one per eating snake, in snake order.
pub fn feed_snakes(snakes: &mut Vec<BattleSnake>, food: &Vec<Position>) -> (eaten: Vec<usize>)
    ensures
        details_kept(old(snakes)@, final(snakes)@),
        states(final(snakes)@) == fed_all(states(old(snakes)@), food@),
        as_ints(eaten@) == eaten_indices(states(old(snakes)@), food@),
        forall|k: int| 0 <= k < eaten@.len() ==> #[trigger] eaten@[k] < food@.len(),
{
    let ghost g0 = states(old(snakes)@);
    let mut eaten: Vec<usize> = Vec::new();
    let n = snakes.len();
    let mut i: usize = 0;
    while i < n
        invariant
            n == old(snakes)@.len(),
            g0 == states(old(snakes)@),
            i <= n,
            details_kept(old(snakes)@, snakes@),
            forall|j: int| i <= j < n ==> #[trigger] snakes@[j] == old(snakes)@[j],
            forall|j: int|
                0 <= j < i ==> state_of(#[trigger] snakes@[j]) == fed(
                    state_of(old(snakes)@[j]),
                    food@,
                ),
            as_ints(eaten@) == eaten_indices(g0.subrange(0, i as int), food@),
            forall|k: int| 0 <= k < eaten@.len() ==> #[trigger] eaten@[k] < food@.len(),
        decreases n - i,
    {
        let ghost before = eaten@;
        assert(g0.subrange(0, i + 1).drop_last() =~= g0.subrange(0, i as int));
        assert(g0.subrange(0, i + 1).last() == state_of(old(snakes)@[i as int]));
        if snakes[i].health > 0 {
            let head = snakes[i].head;
            match find_position(food, head) {
                Some(idx) => {
                    eaten.push(idx);
                    snakes[i].health = SNAKE_MAX_HEALTH;
                    let len = snakes[i].body.len();
                    if len > 0 {
                        let tail = snakes[i].body[len - 1];
                        snakes[i].body.push_back(tail);
                    }
                    assert(as_ints(eaten@) =~= as_ints(before).push(idx as int));
                },
                None => {},
            }
        }
        i = i + 1;
    }
    assert(g0.subrange(0, n as int) =~= g0);
    assert(states(snakes@) =~= fed_all(g0, food@));
    eaten
}

} // verus!

verus! {

proof fn lemma_insert_desc_at(x: int, s: Seq<int>, p: int)
    requires
        0 <= p <= s.len(),
        forall|j: int| 0 <= j < p ==> s[j] > x,
        p == s.len() || x >= s[p],
    ensures
        insert_desc(x, s) == s.insert(p, x),
    decreases s.len(),
{
    if s.len() == 0 {
        assert(s.insert(p, x) =~= seq![x]);
    } else if p == 0 {
        assert(s.insert(p, x) =~= seq![x] + s);
    } else {
        let t = s.drop_first();
        lemma_insert_desc_at(x, t, p - 1);
        assert(s.insert(p, x) =~= seq![s[0]] + t.insert(p - 1, x));
    }
}

/// Sorts indices from largest to smallest.
pub fn sort_descending(v: &Vec<usize>) -> (r: Vec<usize>)
    ensures
        as_ints(r@) == sort_desc(as_ints(v@)),
{
    let mut r: Vec<usize> = Vec::new();
    let n = v.len();
    let mut i: usize = 0;
    while i < n
        invariant
            n == v@.len(),
            i <= n,
            as_ints(r@) == sort_desc(as_ints(v@).subrange(0, i as int)),
        decreases n - i,
    {
        let x = v[i];
        let m = r.len();
        let mut p: usize = 0;
        while p < m && r[p] > x
            invariant
                m == r@.len(),
                p <= m,
                forall|j: int| 0 <= j < p ==> r@[j] > x,
            decreases m - p,
        {
            p = p + 1;
        }
        let ghost before = as_ints(r@);
        proof {
            lemma_insert_desc_at(x as int, before, p as int);
            let t = as_ints(v@).subrange(0, i + 1);
            assert(t.drop_last() =~= as_ints(v@).subrange(0, i as int));
            assert(t.last() == x as int);
        }
        r.insert(p, x);
        assert(as_ints(r@) =~= before.insert(p as int, x as int));
        i = i + 1;
    }
    assert(as_ints(v@).subrange(0, n as int) =~= as_ints(v@));
    r
}

/// Removes the entries at the given indices, one after another.
pub fn remove_indices(food: &mut Vec<Position>, idxs: &Vec<usize>)
    requires
        removal_in_bounds(old(food)@, as_ints(idxs@)),
    ensures
        final(food)@ == remove_each(old(food)@, as_ints(idxs@)),
{
    let n = idxs.len();
    let mut k: usize = 0;
    while k < n
        invariant
            n == idxs@.len(),
            k <= n,
            removal_in_bounds(old(food)@, as_ints(idxs@)),
            food@ == remove_each(old(food)@, as_ints(idxs@).subrange(0, k as int)),
        decreases n - k,
    {
        let ghost t = as_ints(idxs@).subrange(0, k + 1);
        proof {
            assert(t.drop_last() =~= as_ints(idxs@).subrange(0, k as int));
            lemma_removal_prefix(old(food)@, as_ints(idxs@), k + 1);
        }
        food.remove(idxs[k]);
        k = k + 1;
    }
    assert(as_ints(idxs@).subrange(0, n as int) =~= as_ints(idxs@));
}

proof fn lemma_removal_prefix<T>(s: Seq<T>, idxs: Seq<int>, k: int)
    requires
        removal_in_bounds(s, idxs),
        0 <= k <= idxs.len(),
    ensures
        removal_in_bounds(s, idxs.subrange(0, k)),
    decreases idxs.len(),
{
    if k == idxs.len() {
        assert(idxs.subrange(0, k) =~= idxs);
    } else {
        lemma_removal_prefix(s, idxs.drop_last(), k);
        assert(idxs.drop_last().subrange(0, k) =~= idxs.subrange(0, k));
    }
}

} // verus!

verus! {

/// Whether `p` lies on `body` past its first segment.
pub fn on_body_past_head(body: &VecDeque<Position>, p: Position) -> (r: bool)
    ensures
        r == in_tail(body@, p),
{
    let n = body.len();
    let mut k: usize = 1;
    while k < n
        invariant
            n == body@.len(),
            1 <= k,
            forall|j: int| 1 <= j < k && j < n ==> body@[j] != p,
        decreases n - k,
    {
        if body[k] == p {
            return true;
        }
        k = k + 1;
    }
    false
}

/// Whether the head of snake `i` lies on another living snake's body.
pub fn hits_other_body_exec(snakes: &Vec<BattleSnake>, i: usize) -> (r: bool)
    requires
        i < snakes@.len(),
    ensures
        r == hits_other_body(states(snakes@), i as int),
{
    let ghost g = states(snakes@);
    let n = snakes.len();
    let mut j: usize = 0;
    while j < n
        invariant
            n == snakes@.len(),
            i < n,
            g == states(snakes@),
            j <= n,
            forall|k: int|
                0 <= k < j ==> !(g[k].id != g[i as int].id && is_alive(g[k]) && #[trigger] in_tail(g[k].body, g[i as int].head)),
        decreases n - j,
    {
        let other = &snakes[j];
        if other.id != snakes[i].id && other.health > 0 && on_body_past_head(
            &other.body,
            snakes[i].head,
        ) {
            assert(in_tail(g[j as int].body, g[i as int].head));
            return true;
        }
        j = j + 1;
    }
    false
}

/// Whether snake `i` meets the head of another living snake at least as long.
pub fn loses_head_on_exec(snakes: &Vec<BattleSnake>, i: usize) -> (r: bool)
    requires
        i < snakes@.len(),
    ensures
        r == loses_head_on(states(snakes@), i as int),
{
    let ghost g = states(snakes@);
    let n = snakes.len();
    let mut j: usize = 0;
    while j < n
        invariant
            n == snakes@.len(),
            i < n,
            g == states(snakes@),
            j <= n,
            forall|k: int|
                0 <= k < j ==> !(g[k].id != g[i as int].id && is_alive(g[k]) && #[trigger] g[k].head
                    == g[i as int].head && g[i as int].body.len() <= g[k].body.len()),
        decreases n - j,
    {
        let other = &snakes[j];
        if other.id != snakes[i].id && other.health > 0 && other.head == snakes[i].head
            && snakes[i].body.len() <= other.body.len() {
            assert(g[j as int].head == g[i as int].head);
            return true;
        }
        j = j + 1;
    }
    false
}

/// Whether snake `i` is alive and collides with a wall, itself or another
/// snake on a board of the given size.
pub fn is_doomed(snakes: &Vec<BattleSnake>, i: usize, width: i32, height: i32) -> (r: bool)
    requires
        i < snakes@.len(),
    ensures
        r == doomed(states(snakes@), i as int, width as int, height as int),
{
    let s = &snakes[i];
    if s.health <= 0 {
        return false;
    }
    let head = s.head;
    if head.x < 0 || head.x >= width || head.y < 0 || head.y >= height {
        return true;
    }
    if on_body_past_head(&s.body, head) {
        return true;
    }
    if hits_other_body_exec(snakes, i) {
        return true;
    }
    loses_head_on_exec(snakes, i)
}

/// Board width and height as the rules compare them with coordinates.
pub open spec fn rule_width(game: Game) -> int {
    (game.board.width as i32) as int
}

pub open spec fn rule_height(game: Game) -> int {
    (game.board.height as i32) as int
}

/// Everything in the game but the snakes on the board is left as it was.
pub open spec fn same_but_snakes(a: Game, b: Game) -> bool {
    &&& a.you == b.you
    &&& a.turn == b.turn
    &&& a.game == b.game
    &&& a.board.width == b.board.width
    &&& a.board.height == b.board.height
    &&& a.board.food == b.board.food
    &&& a.board.hazards == b.board.hazards
}

/// For each snake, whether it is doomed on a board of the given size.
pub fn doomed_flags(snakes: &Vec<BattleSnake>, width: i32, height: i32) -> (flags: Vec<bool>)
    ensures
        flags@.len() == snakes@.len(),
        forall|k: int|
            0 <= k < flags@.len() ==> #[trigger] flags@[k] == doomed(
                states(snakes@),
                k,
                width as int,
                height as int,
            ),
{
    let mut flags: Vec<bool> = Vec::new();
    let n = snakes.len();
    let mut i: usize = 0;
    while i < n
        invariant
            n == snakes@.len(),
            i <= n,
            flags@.len() == i,
            forall|k: int|
                0 <= k < i ==> #[trigger] flags@[k] == doomed(
                    states(snakes@),
                    k,
                    width as int,
                    height as int,
                ),
        decreases n - i,
    {
        let d = is_doomed(snakes, i, width, height);
        flags.push(d);
        i = i + 1;
    }
    flags
}

/// Eliminates the snakes that are out of bounds or have collided: their
/// health drops to 0. Eliminations are decided on the state before any is
/// applied.
pub fn eliminate_snakes(game: &mut Game)
    ensures
        same_but_snakes(*old(game), *final(game)),
        details_kept(old(game).board.snakes@, final(game).board.snakes@),
        states(final(game).board.snakes@) == eliminated_all(
            states(old(game).board.snakes@),
            rule_width(*old(game)),
            rule_height(*old(game)),
        ),
{
    let width = #[verifier::truncate] (game.board.width as i32);
    let height = #[verifier::truncate] (game.board.height as i32);
    let ghost g = states(game.board.snakes@);
    let ghost w = width as int;
    let ghost h = height as int;
    let flags = doomed_flags(&game.board.snakes, width, height);
    let n = game.board.snakes.len();
    let mut i: usize = 0;
    while i < n
        invariant
            i <= n,
            n == game.board.snakes@.len(),
            n == flags@.len(),
            g == states(old(game).board.snakes@),
            forall|k: int| 0 <= k < n ==> #[trigger] flags@[k] == doomed(g, k, w, h),
            same_but_snakes(*old(game), *game),
            details_kept(old(game).board.snakes@, game.board.snakes@),
            forall|j: int|
                0 <= j < n ==> #[trigger] state_of(game.board.snakes@[j]) == (if first_with_id(
                    g,
                    j,
                ) && exists|k: int| 0 <= k < i && doomed(g, k, w, h) && g[k].id == g[j].id {
                    SnakeState { health: 0, ..g[j] }
                } else {
                    g[j]
                }),
        decreases n - i,
    {
        if flags[i] {
            assert forall|k: int| 0 <= k < n implies #[trigger] game.board.snakes@[k].id@ == g[k].id by {
                assert(state_of(game.board.snakes@[k]).id == g[k].id);
            }
            let mut j: usize = 0;
            while j < n && game.board.snakes[j].id != game.board.snakes[i].id
                invariant
                    n == game.board.snakes@.len(),
                    n == g.len(),
                    i < n,
                    j <= n,
                    forall|k: int|
                        0 <= k < n ==> #[trigger] game.board.snakes@[k].id@ == g[k].id,
                    forall|k: int| 0 <= k < j ==> g[k].id != g[i as int].id,
                decreases n - j,
            {
                j = j + 1;
            }
            assert(j < n) by {
                if j >= n {
                    assert(g[i as int].id != g[i as int].id);
                }
            }
            assert(g[j as int].id == g[i as int].id);
            let ghost before = game.board.snakes@;
            game.board.snakes[j].health = 0;
            let ghost ii = i as int;
            proof {
                assert(first_with_id(g, j as int));
                assert forall|j2: int|
                    0 <= j2 < n && first_with_id(g, j2) && g[j2].id == g[i as int].id implies j2
                    == j by {
                    if j2 < j {
                    } else if j2 > j {
                        assert(g[j as int].id == g[j2].id);
                    }
                }
                assert forall|j2: int| 0 <= j2 < n implies #[trigger] state_of(
                    game.board.snakes@[j2],
                ) == (if first_with_id(g, j2) && exists|k: int|
                    0 <= k < ii + 1 && doomed(g, k, w, h) && g[k].id == g[j2].id {
                    SnakeState { health: 0, ..g[j2] }
                } else {
                    g[j2]
                }) by {
                    assert(state_of(before[j2]) == (if first_with_id(g, j2) && exists|k: int|
                        0 <= k < ii && doomed(g, k, w, h) && g[k].id == g[j2].id {
                        SnakeState { health: 0, ..g[j2] }
                    } else {
                        g[j2]
                    }));
                    if j2 == j {
                        assert(doomed(g, ii, w, h));
                    } else {
                        assert(game.board.snakes@[j2] == before[j2]);
                        if first_with_id(g, j2) && g[ii].id == g[j2].id {
                            assert(j2 == j);
                        }
                    }
                }
            }
        } else {
            let ghost ii = i as int;
            assert forall|j2: int| 0 <= j2 < n implies #[trigger] state_of(
                game.board.snakes@[j2],
            ) == (if first_with_id(g, j2) && exists|k: int|
                0 <= k < ii + 1 && doomed(g, k, w, h) && g[k].id == g[j2].id {
                SnakeState { health: 0, ..g[j2] }
            } else {
                g[j2]
            }) by {
                assert(!doomed(g, ii, w, h));
            }
        }
        i = i + 1;
    }
    assert(states(game.board.snakes@) =~= eliminated_all(g, w, h));
}

} // verus!

verus! {

/// The snakes after moving, starving and feeding, before eliminations.
pub open spec fn after_feeding(
    g: Seq<SnakeState>,
    food: Seq<Position>,
    moves: Seq<(String, Move)>,
) -> Seq<SnakeState> {
    fed_all(starved_all(moved_all(g, moves)), food)
}

/// The order in which eaten food is removed: the eaten indices from
/// largest to smallest.
pub open spec fn removal_order(
    g: Seq<SnakeState>,
    food: Seq<Position>,
    moves: Seq<(String, Move)>,
) -> Seq<int> {
    sort_desc(eaten_indices(starved_all(moved_all(g, moves)), food))
}

/// `you` is replaced by the first board snake with its id, if any.
pub open spec fn you_refreshed(old_you: BattleSnake, snakes: Seq<BattleSnake>, new_you: BattleSnake) -> bool {
    if exists|j: int| 0 <= j < snakes.len() && snakes[j].id@ == old_you.id@ {
        exists|j: int|
            0 <= j < snakes.len() && snakes[j].id@ == old_you.id@ && (forall|k: int|
                0 <= k < j ==> snakes[k].id@ != old_you.id@) && state_of(new_you) == state_of(
                snakes[j],
            ) && same_details(new_you, snakes[j])
    } else {
        new_you == old_you
    }
}

/// Replaces `you` by a copy of the first board snake with the same id.
pub fn refresh_you(game: &mut Game)
    ensures
        final(game).board == old(game).board,
        final(game).turn == old(game).turn,
        final(game).game == old(game).game,
        you_refreshed(old(game).you, old(game).board.snakes@, final(game).you),
{
    let n = game.board.snakes.len();
    let mut j: usize = 0;
    while j < n && game.board.snakes[j].id != game.you.id
        invariant
            n == game.board.snakes@.len(),
            j <= n,
            game == old(game),
            forall|k: int| 0 <= k < j ==> game.board.snakes@[k].id@ != game.you.id@,
        decreases n - j,
    {
        j = j + 1;
    }
    if j < n {
        let you = game.board.snakes[j].duplicate();
        game.you = you;
        assert(state_of(game.you) == state_of(old(game).board.snakes@[j as int]));
    }
}

/// `r` is `game` after one turn with the given moves; the turn counter is
/// not part of it.
pub open spec fn turn_applied(game: Game, moves: Seq<(String, Move)>, r: Game) -> bool {
    &&& details_kept(game.board.snakes@, r.board.snakes@)
    &&& states(r.board.snakes@) == eliminated_all(
        after_feeding(states(game.board.snakes@), game.board.food@, moves),
        rule_width(game),
        rule_height(game),
    )
    &&& r.board.food@ == remove_each(
        game.board.food@,
        dedup_removal_order(states(game.board.snakes@), game.board.food@, moves),
    )
    &&& r.board.width == game.board.width
    &&& r.board.height == game.board.height
    &&& r.board.hazards == game.board.hazards
    &&& r.game == game.game
    &&& you_refreshed(game.you, r.board.snakes@, r.you)
}

/// Applies one turn: living snakes move (the first move addressed to each,
/// `Up` when none is), lose a point of health, eat the food under their
/// heads (an item eaten by several snakes at once goes once), and then
/// collided snakes are eliminated. `you` is refreshed from the board.
pub fn apply_turn(game: Game, moves: &[(String, Move)]) -> (r: Game)
    ensures
        turn_applied(game, moves@, r),
        r.turn == game.turn,
{
    let mut game = game;
    let ghost s0 = game.board.snakes@;
    let ghost f0 = game.board.food@;
    move_snakes(&mut game.board.snakes, moves);
    reduce_health(&mut game.board.snakes);
    let eaten = feed_snakes(&mut game.board.snakes, &game.board.food);
    let order = sort_descending(&eaten);
    let unique = dedup_indices(&order);
    proof {
        let e = as_ints(eaten@);
        lemma_sort_desc(e);
        lemma_dedup(sort_desc(e));
        assert forall|k: int| 0 <= k < as_ints(unique@).len() implies 0 <= #[trigger] as_ints(
            unique@,
        )[k] < f0.len() by {
            let y = as_ints(unique@)[k];
            assert(dedup(sort_desc(e)).contains(y));
            assert(e.contains(y));
            let k2 = choose|k2: int| 0 <= k2 < e.len() && e[k2] == y;
            assert(eaten@[k2] < f0.len());
        }
        lemma_decreasing_removal(f0, as_ints(unique@));
    }
    remove_indices(&mut game.board.food, &unique);
    let ghost g3 = game.board.snakes@;
    eliminate_snakes(&mut game);
    proof {
        assert forall|i: int| 0 <= i < s0.len() implies same_details(
            #[trigger] s0[i],
            game.board.snakes@[i],
        ) by {
            assert(same_details(s0[i], g3[i]));
        }
    }
    refresh_you(&mut game);
    game
}

} // verus!

verus! {

/// Drops an entry that equals the one before it.
pub open spec fn dedup(s: Seq<int>) -> Seq<int>
    decreases s.len(),
{
    if s.len() <= 1 {
        s
    } else {
        let prev = dedup(s.drop_last());
        if s.last() == s[s.len() - 2] {
            prev
        } else {
            prev.push(s.last())
        }
    }
}

pub open spec fn non_increasing(s: Seq<int>) -> bool {
    forall|i: int, j: int| 0 <= i <= j < s.len() ==> s[i] >= s[j]
}

pub open spec fn decreasing(s: Seq<int>) -> bool {
    forall|i: int, j: int| 0 <= i < j < s.len() ==> s[i] > s[j]
}

proof fn lemma_insert_desc_contents(x: int, s: Seq<int>)
    ensures
        insert_desc(x, s).len() == s.len() + 1,
        forall|y: int| #[trigger] insert_desc(x, s).contains(y) <==> (y == x || s.contains(y)),
        non_increasing(s) ==> non_increasing(insert_desc(x, s)),
    decreases s.len(),
{
    if s.len() == 0 {
        assert(insert_desc(x, s) =~= seq![x]);
        assert forall|y: int| insert_desc(x, s).contains(y) <==> (y == x || s.contains(y)) by {
            if y == x {
                assert(insert_desc(x, s)[0] == y);
            }
        }
    } else if x >= s[0] {
        let r = seq![x] + s;
        assert(insert_desc(x, s) == r);
        assert forall|y: int| r.contains(y) <==> (y == x || s.contains(y)) by {
            if r.contains(y) {
                let k = choose|k: int| 0 <= k < r.len() && r[k] == y;
                if k > 0 {
                    assert(s[k - 1] == y);
                }
            }
            if s.contains(y) {
                let k = choose|k: int| 0 <= k < s.len() && s[k] == y;
                assert(r[k + 1] == y);
            }
            if y == x {
                assert(r[0] == y);
            }
        }
        assert forall|y: int| #[trigger] insert_desc(x, s).contains(y) <==> (y == x || s.contains(y)) by {
            assert(r.contains(y) <==> (y == x || s.contains(y)));
        }
    } else {
        let t = s.drop_first();
        lemma_insert_desc_contents(x, t);
        let it = insert_desc(x, t);
        let r = seq![s[0]] + it;
        assert(insert_desc(x, s) == r);
        assert forall|y: int| r.contains(y) <==> (y == x || s.contains(y)) by {
            if r.contains(y) {
                let k = choose|k: int| 0 <= k < r.len() && r[k] == y;
                if k > 0 {
                    assert(it[k - 1] == y);
                    assert(it.contains(y));
                    if t.contains(y) {
                        let k2 = choose|k2: int| 0 <= k2 < t.len() && t[k2] == y;
                        assert(s[k2 + 1] == y);
                    }
                } else {
                    assert(s[0] == y);
                }
            }
            if s.contains(y) {
                let k = choose|k: int| 0 <= k < s.len() && s[k] == y;
                if k == 0 {
                    assert(r[0] == y);
                } else {
                    assert(t[k - 1] == y);
                    assert(it.contains(y));
                    let k2 = choose|k2: int| 0 <= k2 < it.len() && it[k2] == y;
                    assert(r[k2 + 1] == y);
                }
            }
            if y == x {
                assert(it.contains(x));
                let k2 = choose|k2: int| 0 <= k2 < it.len() && it[k2] == x;
                assert(r[k2 + 1] == y);
            }
        }
        assert forall|y: int| #[trigger] insert_desc(x, s).contains(y) <==> (y == x || s.contains(y)) by {
            assert(r.contains(y) <==> (y == x || s.contains(y)));
        }
        if non_increasing(s) {
            assert(non_increasing(t));
            assert forall|i: int, j: int| 0 <= i <= j < r.len() implies r[i] >= r[j] by {
                if i == 0 && j > 0 {
                    assert(it.contains(it[j - 1]));
                    if it[j - 1] == x {
                    } else {
                        let k2 = choose|k2: int| 0 <= k2 < t.len() && t[k2] == it[j - 1];
                        assert(s[k2 + 1] == it[j - 1]);
                    }
                }
            }
        }
    }
}

/// Sorting from largest to smallest keeps the entries and orders them.
pub proof fn lemma_sort_desc(s: Seq<int>)
    ensures
        sort_desc(s).len() == s.len(),
        forall|y: int| #[trigger] sort_desc(s).contains(y) <==> s.contains(y),
        non_increasing(sort_desc(s)),
    decreases s.len(),
{
    if s.len() > 0 {
        let t = s.drop_last();
        lemma_sort_desc(t);
        lemma_insert_desc_contents(s.last(), sort_desc(t));
        assert forall|y: int| sort_desc(s).contains(y) <==> s.contains(y) by {
            if s.contains(y) {
                let k = choose|k: int| 0 <= k < s.len() && s[k] == y;
                if k < s.len() - 1 {
                    assert(t[k] == y);
                    assert(t.contains(y));
                }
            }
            if t.contains(y) {
                let k = choose|k: int| 0 <= k < t.len() && t[k] == y;
                assert(s[k] == y);
            }
        }
    }
}

proof fn lemma_dedup(s: Seq<int>)
    requires
        non_increasing(s),
    ensures
        decreasing(dedup(s)),
        dedup(s).len() <= s.len(),
        s.len() > 0 ==> dedup(s).len() > 0 && dedup(s)[0] == s[0],
        forall|y: int| #[trigger] dedup(s).contains(y) ==> s.contains(y),
    decreases s.len(),
{
    if s.len() > 1 {
        let t = s.drop_last();
        lemma_dedup(t);
        let p = dedup(t);
        assert forall|y: int| #[trigger] dedup(s).contains(y) implies s.contains(y) by {
            let k = choose|k: int| 0 <= k < dedup(s).len() && dedup(s)[k] == y;
            if k < p.len() {
                assert(p.contains(y));
                let k2 = choose|k2: int| 0 <= k2 < t.len() && t[k2] == y;
                assert(s[k2] == y);
            } else {
                assert(s[s.len() - 1] == y);
            }
        }
        if s.last() != s[s.len() - 2] {
            // the last kept entry is at least s[len - 2]
            assert(p.contains(p.last()));
            let k2 = choose|k2: int| 0 <= k2 < t.len() && t[k2] == p.last();
            assert(s[k2] >= s[s.len() - 2]);
            assert(p.last() > s.last());
            assert forall|i: int, j: int| 0 <= i < j < p.len() + 1 implies p.push(s.last())[i]
                > p.push(s.last())[j] by {
                if j == p.len() {
                    assert(p[i] >= p.last());
                }
            }
        }
    }
}

/// Removing the entries at strictly decreasing indices, all below the
/// length, never goes out of bounds.
proof fn lemma_decreasing_removal<T>(f: Seq<T>, d: Seq<int>)
    requires
        decreasing(d),
        forall|k: int| 0 <= k < d.len() ==> 0 <= #[trigger] d[k] < f.len(),
    ensures
        removal_in_bounds(f, d),
        remove_each(f, d).len() == f.len() - d.len(),
    decreases d.len(),
{
    if d.len() > 0 {
        let t = d.drop_last();
        lemma_decreasing_removal(f, t);
        lemma_decreasing_bound(d, d.len() - 1);
    }
}

proof fn lemma_decreasing_bound(d: Seq<int>, k: int)
    requires
        decreasing(d),
        0 <= k < d.len(),
    ensures
        d[k] <= d[0] - k,
    decreases k,
{
    if k > 0 {
        lemma_decreasing_bound(d, k - 1);
    }
}

/// Drops an index equal to the one before it.
pub fn dedup_indices(v: &Vec<usize>) -> (r: Vec<usize>)
    ensures
        as_ints(r@) == dedup(as_ints(v@)),
{
    let mut r: Vec<usize> = Vec::new();
    let n = v.len();
    if n == 0 {
        assert(as_ints(r@) =~= dedup(as_ints(v@)));
        return r;
    }
    r.push(v[0]);
    let mut i: usize = 1;
    proof {
        assert(as_ints(v@).subrange(0, 1) =~= seq![v@[0] as int]);
        assert(as_ints(r@) =~= dedup(as_ints(v@).subrange(0, 1)));
    }
    while i < n
        invariant
            n == v@.len(),
            1 <= i <= n,
            as_ints(r@) == dedup(as_ints(v@).subrange(0, i as int)),
        decreases n - i,
    {
        let ghost before = as_ints(r@);
        let ghost t = as_ints(v@).subrange(0, i + 1);
        assert(t.drop_last() =~= as_ints(v@).subrange(0, i as int));
        if v[i] != v[i - 1] {
            r.push(v[i]);
            assert(as_ints(r@) =~= before.push(v@[i as int] as int));
        }
        i = i + 1;
    }
    assert(as_ints(v@).subrange(0, n as int) =~= as_ints(v@));
    r
}

/// The order in which eaten food is removed when the same index is only
/// removed once.
pub open spec fn dedup_removal_order(
    g: Seq<SnakeState>,
    food: Seq<Position>,
    moves: Seq<(String, Move)>,
) -> Seq<int> {
    dedup(removal_order(g, food, moves))
}

/// Applies one turn by the same rules as `apply_turn`: food eaten by several
/// snakes at once is removed only once.
pub fn apply_turn_internal(game: Game, moves: &[(String, Move)]) -> (r: Game)
    ensures
        details_kept(game.board.snakes@, r.board.snakes@),
        states(r.board.snakes@) == eliminated_all(
            after_feeding(states(game.board.snakes@), game.board.food@, moves@),
            rule_width(game),
            rule_height(game),
        ),
        r.board.food@ == remove_each(
            game.board.food@,
            dedup_removal_order(states(game.board.snakes@), game.board.food@, moves@),
        ),
        r.board.width == game.board.width,
        r.board.height == game.board.height,
        r.board.hazards == game.board.hazards,
        r.turn == game.turn,
        r.game == game.game,
        you_refreshed(game.you, r.board.snakes@, r.you),
{
    apply_turn(game, moves)
}

/// An item that occurs in `s` has a first occurrence.
proof fn lemma_first_index_exists<T>(s: Seq<T>, p: T)
    requires
        s.contains(p),
    ensures
        is_first_index(s, p, first_index(s, p)),
    decreases s.len(),
{
    if s[0] == p {
        assert(is_first_index(s, p, 0));
    } else {
        let t = s.drop_first();
        let k = choose|k: int| 0 <= k < s.len() && s[k] == p;
        assert(t[k - 1] == p);
        lemma_first_index_exists(t, p);
        let j = first_index(t, p);
        assert forall|i: int| 0 <= i < j + 1 implies s[i] != p by {
            if i > 0 {
                assert(s[i] == t[i - 1]);
            }
        }
        assert(is_first_index(s, p, j + 1));
    }
}

/// Every eaten index points into the food list.
proof fn lemma_eaten_in_range(g: Seq<SnakeState>, food: Seq<Position>)
    ensures
        forall|k: int|
            0 <= k < eaten_indices(g, food).len() ==> 0 <= #[trigger] eaten_indices(g, food)[k]
                < food.len(),
    decreases g.len(),
{
    if g.len() > 0 {
        let p = eaten_indices(g.drop_last(), food);
        lemma_eaten_in_range(g.drop_last(), food);
        if eats(g.last(), food) {
            lemma_first_index_exists(food, g.last().head);
            let e = p.push(first_index(food, g.last().head));
            assert(eaten_indices(g, food) == e);
            assert forall|k: int| 0 <= k < e.len() implies 0 <= #[trigger] e[k] < food.len() by {
                if k < p.len() {
                    assert(e[k] == p[k]);
                }
            }
        }
    }
}

/// Removing each eaten item once never goes out of bounds, and takes away
/// one item per distinct eaten index.
pub proof fn lemma_dedup_removal_fits(g: Seq<SnakeState>, food: Seq<Position>, moves: Seq<(String, Move)>)
    ensures
        removal_in_bounds(food, dedup_removal_order(g, food, moves)),
        remove_each(food, dedup_removal_order(g, food, moves)).len() == food.len()
            - dedup_removal_order(g, food, moves).len(),
{
    let e = eaten_indices(starved_all(moved_all(g, moves)), food);
    lemma_eaten_in_range(starved_all(moved_all(g, moves)), food);
    lemma_sort_desc(e);
    lemma_dedup(sort_desc(e));
    let d = dedup(sort_desc(e));
    assert forall|k: int| 0 <= k < d.len() implies 0 <= #[trigger] d[k] < food.len() by {
        assert(d.contains(d[k]));
        assert(e.contains(d[k]));
        let k2 = choose|k2: int| 0 <= k2 < e.len() && e[k2] == d[k];
    }
    lemma_decreasing_removal(food, d);
}

} // verus!
