//! Setting up a new game: spawn positions, initial food and the initial
//! game state.

use rand::seq::SliceRandom;
use rand::Rng;
use std::collections::VecDeque;
use vstd::prelude::*;

use super::rules::{same_details, state_of};
use super::wire::{BattleSnake, Board, Game, NestedGame, Position, Ruleset, Settings};
use crate::ids::{uuid_string, uuid_text};
use crate::models::{GameBattlesnakeWithDetails, GameBoardSize, GameType};
use crate::text::owned;

verus! {

/// Calls `SliceRandom::shuffle` with the thread-local generator: the
/// positions come back in an order chosen at random.
#[verifier::external_body]
fn shuffle_positions(v: &mut Vec<Position>)
    ensures
        final(v)@.to_multiset() == old(v)@.to_multiset(),
        final(v)@.len() == old(v)@.len(),
{
    v.shuffle(&mut rand::thread_rng())
}

/// Calls `Rng::gen::<bool>` with the thread-local generator: a fair coin.
#[verifier::external_body]
fn coin_flip() -> bool {
    rand::thread_rng().gen::<bool>()
}

/// Calls `SliceRandom::choose` with the thread-local generator: one of the
/// positions at random, none when there are none.
#[verifier::external_body]
fn choose_position(v: &Vec<Position>) -> (r: Option<Position>)
    ensures
        r is None <==> v@.len() == 0,
        r matches Some(p) ==> v@.contains(p),
{
    v.choose(&mut rand::thread_rng()).copied()
}

/// Rust's integer division by two, which rounds towards zero.
pub open spec fn half_toward_zero(v: int) -> int {
    if v >= 0 {
        v / 2
    } else {
        -((-v) / 2)
    }
}

/// The four corner spawn points, one cell in from the edges.
pub open spec fn corner_spawns(width: int) -> Seq<Position> {
    let mn = 1i32;
    let mx = (width - 2) as i32;
    seq![Position { x: mn, y: mn }, Position { x: mn, y: mx }, Position { x: mx, y: mn }, Position { x: mx, y: mx }]
}

/// The four cardinal spawn points, in the middle of each edge.
pub open spec fn cardinal_spawns(width: int) -> Seq<Position> {
    let mn = 1i32;
    let md = half_toward_zero(width - 1) as i32;
    let mx = (width - 2) as i32;
    seq![Position { x: mn, y: md }, Position { x: md, y: mn }, Position { x: md, y: mx }, Position { x: mx, y: md }]
}

pub open spec fn min_int(a: int, b: int) -> int {
    if a <= b {
        a
    } else {
        b
    }
}

/// `r` is a possible result of choosing spawn points for `num` snakes: the
/// corner points and the cardinal points are each shuffled, one group is put
/// before the other, and the first `num` points are taken.
pub open spec fn spawn_outcome(width: int, num: int, r: Seq<Position>) -> bool {
    exists|a: Seq<Position>, b: Seq<Position>|
        #![trigger a.to_multiset(), b.to_multiset()]
        a.to_multiset() == corner_spawns(width).to_multiset() && b.to_multiset() == cardinal_spawns(
            width,
        ).to_multiset() && a.len() == 4 && b.len() == 4 && (r == (a + b).take(min_int(num, 8)) || r
            == (b + a).take(min_int(num, 8)))
}

/// Spawn points for the snakes, following the official algorithm for up to
/// eight snakes: shuffled corner points and shuffled cardinal points, one
/// group first chosen at random, as many as there are snakes.
pub fn generate_spawn_positions(width: i32, _height: i32, num_snakes: usize) -> (r: Vec<Position>)
    requires
        width >= i32::MIN + 2,
    ensures
        spawn_outcome(width as int, num_snakes as int, r@),
        r@.len() == min_int(num_snakes as int, 8),
{
    let mn: i32 = 1;
    let md: i32 = (width - 1) / 2;
    let mx: i32 = width - 2;
    let mut corner_points: Vec<Position> = Vec::new();
    corner_points.push(Position::new(mn, mn));
    corner_points.push(Position::new(mn, mx));
    corner_points.push(Position::new(mx, mn));
    corner_points.push(Position::new(mx, mx));
    let mut cardinal_points: Vec<Position> = Vec::new();
    cardinal_points.push(Position::new(mn, md));
    cardinal_points.push(Position::new(md, mn));
    cardinal_points.push(Position::new(md, mx));
    cardinal_points.push(Position::new(mx, md));
    assert(md as int == half_toward_zero(width - 1));
    assert(corner_points@ =~= corner_spawns(width as int));
    assert(cardinal_points@ =~= cardinal_spawns(width as int));
    shuffle_positions(&mut corner_points);
    shuffle_positions(&mut cardinal_points);
    let ghost a = corner_points@;
    let ghost b = cardinal_points@;
    let mut start_points = if coin_flip() {
        let mut points = corner_points;
        let mut rest = cardinal_points;
        points.append(&mut rest);
        assert(points@ == a + b);
        points
    } else {
        let mut points = cardinal_points;
        let mut rest = corner_points;
        points.append(&mut rest);
        assert(points@ == b + a);
        points
    };
    start_points.truncate(num_snakes);
    assert(start_points@ == (a + b).take(min_int(num_snakes as int, 8)) || start_points@ == (b
        + a).take(min_int(num_snakes as int, 8)));
    start_points
}

} // verus!

verus! {

proof fn lemma_same_multiset_same_contents(a: Seq<Position>, c: Seq<Position>)
    requires
        a.to_multiset() == c.to_multiset(),
        c.no_duplicates(),
    ensures
        a.no_duplicates(),
        forall|p: Position| #[trigger] a.contains(p) ==> c.contains(p),
{
    c.lemma_multiset_has_no_duplicates();
    assert forall|p: Position| #[trigger] a.contains(p) implies c.contains(p) by {
        vstd::seq_lib::to_multiset_contains(a, p);
        vstd::seq_lib::to_multiset_contains(c, p);
    }
    assert forall|p: Position| a.to_multiset().contains(p) implies a.to_multiset().count(p) == 1 by {
        vstd::seq_lib::to_multiset_contains(c, p);
    }
    a.lemma_multiset_has_no_duplicates_conv();
}

/// On a board at least five cells wide, spawn points are distinct and lie
/// inside the board, one cell in from the edges.
pub proof fn lemma_spawn_points_distinct_and_inside(width: int, num: int, r: Seq<Position>)
    requires
        5 <= width <= i32::MAX,
        0 <= num,
        spawn_outcome(width, num, r),
    ensures
        r.no_duplicates(),
        forall|p: Position|
            #[trigger] r.contains(p) ==> 1 <= p.x <= width - 2 && 1 <= p.y <= width - 2,
{
    let c = corner_spawns(width) + cardinal_spawns(width);
    let md = half_toward_zero(width - 1);
    assert(c.no_duplicates()) by {
        assert(2 <= md < width - 2);
        assert(c[0] == Position { x: 1i32, y: 1i32 });
        assert(c[1] == Position { x: 1i32, y: (width - 2) as i32 });
        assert(c[2] == Position { x: (width - 2) as i32, y: 1i32 });
        assert(c[3] == Position { x: (width - 2) as i32, y: (width - 2) as i32 });
        assert(c[4] == Position { x: 1i32, y: md as i32 });
        assert(c[5] == Position { x: md as i32, y: 1i32 });
        assert(c[6] == Position { x: md as i32, y: (width - 2) as i32 });
        assert(c[7] == Position { x: (width - 2) as i32, y: md as i32 });
    }
    assert forall|p: Position| #[trigger] c.contains(p) implies 1 <= p.x <= width - 2 && 1 <= p.y
        <= width - 2 by {
        assert(2 <= md < width - 2);
    }
    let (a, b) = choose|a: Seq<Position>, b: Seq<Position>|
        #![trigger a.to_multiset(), b.to_multiset()]
        a.to_multiset() == corner_spawns(width).to_multiset() && b.to_multiset() == cardinal_spawns(
            width,
        ).to_multiset() && a.len() == 4 && b.len() == 4 && (r == (a + b).take(min_int(num, 8)) || r
            == (b + a).take(min_int(num, 8)));
    vstd::seq_lib::lemma_multiset_commutative(a, b);
    vstd::seq_lib::lemma_multiset_commutative(b, a);
    vstd::seq_lib::lemma_multiset_commutative(corner_spawns(width), cardinal_spawns(width));
    let ab = if r == (a + b).take(min_int(num, 8)) {
        a + b
    } else {
        b + a
    };
    assert(ab.to_multiset() =~= c.to_multiset());
    lemma_same_multiset_same_contents(ab, c);
    assert(r == ab.take(min_int(num, 8)));
    assert(ab.len() == 8);
    assert(r.len() == min_int(num, 8));
    assert forall|p: Position| #[trigger] r.contains(p) implies 1 <= p.x <= width - 2 && 1 <= p.y
        <= width - 2 by {
        let k = choose|k: int| 0 <= k < r.len() && r[k] == p;
        assert(ab[k] == p);
        assert(ab.contains(p));
    }
}

} // verus!

verus! {

pub open spec fn heads_of(snakes: Seq<BattleSnake>) -> Seq<Position> {
    snakes.map_values(|s: BattleSnake| s.head)
}

/// The centre cell of a board.
pub open spec fn board_center(width: int, height: int) -> Position {
    Position { x: half_toward_zero(width - 1) as i32, y: half_toward_zero(height - 1) as i32 }
}

/// The four cells diagonally next to a head.
pub open spec fn diagonal_cells(h: Position) -> Seq<Position> {
    seq![
        Position { x: (h.x - 1) as i32, y: (h.y - 1) as i32 },
        Position { x: (h.x - 1) as i32, y: (h.y + 1) as i32 },
        Position { x: (h.x + 1) as i32, y: (h.y - 1) as i32 },
        Position { x: (h.x + 1) as i32, y: (h.y + 1) as i32 },
    ]
}

pub open spec fn is_board_corner(p: Position, width: int, height: int) -> bool {
    (p.x == 0 || p.x == width - 1) && (p.y == 0 || p.y == height - 1)
}

/// Food may go on `p`: on the board, not the centre, not already food and
/// not a corner.
pub open spec fn food_cell_ok(p: Position, width: int, height: int, food: Seq<Position>) -> bool {
    &&& 0 <= p.x < width
    &&& 0 <= p.y < height
    &&& p != board_center(width, height)
    &&& !food.contains(p)
    &&& !is_board_corner(p, width, height)
}

/// `food` is a possible result of placing one food item diagonally next to
/// each head in turn, at a cell chosen at random among the allowed ones,
/// and none where no diagonal cell is allowed.
pub open spec fn initial_food_outcome(
    heads: Seq<Position>,
    width: int,
    height: int,
    food: Seq<Position>,
) -> bool
    decreases heads.len(),
{
    if heads.len() == 0 {
        food.len() == 0
    } else {
        let h = heads.last();
        ||| {
            &&& food.len() > 0
            &&& initial_food_outcome(heads.drop_last(), width, height, food.drop_last())
            &&& diagonal_cells(h).contains(food.last())
            &&& food_cell_ok(food.last(), width, height, food.drop_last())
        }
        ||| {
            &&& initial_food_outcome(heads.drop_last(), width, height, food)
            &&& forall|k: int| 0 <= k < 4 ==> !food_cell_ok(#[trigger] diagonal_cells(h)[k], width, height, food)
        }
    }
}

/// Initial food is well placed: at most one item per snake, no two on the
/// same cell, every item on the board, off the corners and off the centre
/// (where the centre item, if any, is added afterwards).
pub proof fn lemma_initial_food_well_placed(
    heads: Seq<Position>,
    width: int,
    height: int,
    food: Seq<Position>,
)
    requires
        initial_food_outcome(heads, width, height, food),
    ensures
        food.len() <= heads.len(),
        food.no_duplicates(),
        forall|k: int|
            0 <= k < food.len() ==> 0 <= (#[trigger] food[k]).x < width && 0 <= food[k].y < height
                && food[k] != board_center(width, height) && !is_board_corner(food[k], width, height),
    decreases heads.len(),
{
    if heads.len() > 0 {
        let h = heads.last();
        if food.len() > 0 && initial_food_outcome(heads.drop_last(), width, height, food.drop_last())
            && diagonal_cells(h).contains(food.last()) && food_cell_ok(
            food.last(),
            width,
            height,
            food.drop_last(),
        ) {
            let p = food.drop_last();
            lemma_initial_food_well_placed(heads.drop_last(), width, height, p);
            assert forall|k: int| 0 <= k < food.len() implies 0 <= (#[trigger] food[k]).x < width
                && 0 <= food[k].y < height && food[k] != board_center(width, height)
                && !is_board_corner(food[k], width, height) by {
                if k < p.len() {
                    assert(food[k] == p[k]);
                }
            }
            assert forall|i: int, j: int| 0 <= i < j < food.len() implies food[i] != food[j] by {
                if j < p.len() {
                    assert(food[i] == p[i] && food[j] == p[j]);
                } else {
                    assert(food[i] == p[i]);
                    assert(p.contains(p[i]));
                }
            }
        } else {
            lemma_initial_food_well_placed(heads.drop_last(), width, height, food);
        }
    }
}

/// The whole initial food list, the centre item included, never puts two
/// items on one cell.
pub proof fn lemma_initial_food_distinct(
    snakes: Seq<BattleSnake>,
    width: int,
    height: int,
    food: Seq<Position>,
)
    requires
        exists|chosen: Seq<Position>|
            initial_food_outcome(heads_of(snakes), width, height, chosen) && food == if covered_by_snake(
                snakes,
                board_center(width, height),
            ) {
                chosen
            } else {
                chosen.push(board_center(width, height))
            },
    ensures
        food.no_duplicates(),
{
    let chosen = choose|chosen: Seq<Position>|
        initial_food_outcome(heads_of(snakes), width, height, chosen) && food == if covered_by_snake(
            snakes,
            board_center(width, height),
        ) {
            chosen
        } else {
            chosen.push(board_center(width, height))
        };
    lemma_initial_food_well_placed(heads_of(snakes), width, height, chosen);
    if !covered_by_snake(snakes, board_center(width, height)) {
        assert forall|i: int, j: int| 0 <= i < j < food.len() implies food[i] != food[j] by {
            if j == chosen.len() {
                assert(food[i] == chosen[i]);
            } else {
                assert(food[i] == chosen[i] && food[j] == chosen[j]);
            }
        }
    }
}

/// Whether some snake's body covers `p`.
pub open spec fn covered_by_snake(snakes: Seq<BattleSnake>, p: Position) -> bool {
    exists|i: int| 0 <= i < snakes.len() && #[trigger] snakes[i].body@.contains(p)
}

/// Heads from which the diagonal cells can be computed without overflow.
pub open spec fn heads_in_range(snakes: Seq<BattleSnake>) -> bool {
    forall|i: int|
        0 <= i < snakes.len() ==> i32::MIN < #[trigger] snakes[i].head.x < i32::MAX && i32::MIN
            < snakes[i].head.y < i32::MAX
}

fn contains_position(v: &Vec<Position>, p: Position) -> (r: bool)
    ensures
        r == v@.contains(p),
{
    let n = v.len();
    let mut k: usize = 0;
    while k < n
        invariant
            n == v@.len(),
            k <= n,
            forall|j: int| 0 <= j < k ==> v@[j] != p,
        decreases n - k,
    {
        if v[k] == p {
            return true;
        }
        k = k + 1;
    }
    false
}

fn body_contains(body: &VecDeque<Position>, p: Position) -> (r: bool)
    ensures
        r == body@.contains(p),
{
    let n = body.len();
    let mut k: usize = 0;
    while k < n
        invariant
            n == body@.len(),
            k <= n,
            forall|j: int| 0 <= j < k ==> body@[j] != p,
        decreases n - k,
    {
        if body[k] == p {
            return true;
        }
        k = k + 1;
    }
    false
}

fn cell_ok(p: Position, width: i32, height: i32, center: Position, food: &Vec<Position>) -> (r: bool)
    requires
        width > i32::MIN,
        height > i32::MIN,
        center == board_center(width as int, height as int),
    ensures
        r == food_cell_ok(p, width as int, height as int, food@),
{
    p.x >= 0 && p.x < width && p.y >= 0 && p.y < height && p != center && !contains_position(food, p)
        && !((p.x == 0 || p.x == width - 1) && (p.y == 0 || p.y == height - 1))
}

/// Initial food: one item diagonally next to each snake's head where an
/// allowed cell exists, chosen at random, then one in the centre unless a
/// snake covers it.
pub fn generate_initial_food(width: i32, height: i32, snakes: &[BattleSnake]) -> (food: Vec<Position>)
    requires
        width > i32::MIN,
        height > i32::MIN,
        heads_in_range(snakes@),
    ensures
        exists|chosen: Seq<Position>|
            initial_food_outcome(heads_of(snakes@), width as int, height as int, chosen) && food@
                == if covered_by_snake(snakes@, board_center(width as int, height as int)) {
                chosen
            } else {
                chosen.push(board_center(width as int, height as int))
            },
{
    let mut food: Vec<Position> = Vec::new();
    let center = Position::new((width - 1) / 2, (height - 1) / 2);
    let ghost w = width as int;
    let ghost h = height as int;
    let ghost heads = heads_of(snakes@);
    proof {
        assert(center == board_center(w, h));
        assert(heads.subrange(0, 0).len() == 0);
    }
    let n = snakes.len();
    let mut i: usize = 0;
    while i < n
        invariant
            n == snakes@.len(),
            heads == heads_of(snakes@),
            w == width as int,
            h == height as int,
            width > i32::MIN,
            height > i32::MIN,
            center == board_center(w, h),
            heads_in_range(snakes@),
            i <= n,
            initial_food_outcome(heads.subrange(0, i as int), w, h, food@),
        decreases n - i,
    {
        let hd = snakes[i].head;
        let mut cands: Vec<Position> = Vec::new();
        cands.push(Position::new(hd.x - 1, hd.y - 1));
        cands.push(Position::new(hd.x - 1, hd.y + 1));
        cands.push(Position::new(hd.x + 1, hd.y - 1));
        cands.push(Position::new(hd.x + 1, hd.y + 1));
        assert(cands@ =~= diagonal_cells(hd));
        let mut available: Vec<Position> = Vec::new();
        let mut k: usize = 0;
        while k < 4
            invariant
                cands@ == diagonal_cells(hd),
                width > i32::MIN,
                height > i32::MIN,
                center == board_center(w, h),
                w == width as int,
                h == height as int,
                k <= 4,
                forall|p: Position| #[trigger] available@.contains(p) ==> cands@.contains(p) && food_cell_ok(p, w, h, food@),
                forall|j: int| 0 <= j < k && food_cell_ok(#[trigger] cands@[j], w, h, food@) ==> available@.contains(cands@[j]),
            decreases 4 - k,
        {
            let p = cands[k];
            if cell_ok(p, width, height, center, &food) {
                let ghost before = available@;
                available.push(p);
                assert(available@.last() == p);
                assert forall|q: Position| #[trigger] available@.contains(q) implies cands@.contains(q) && food_cell_ok(q, w, h, food@) by {
                    if q != p {
                        let j = choose|j: int| 0 <= j < available@.len() && available@[j] == q;
                        assert(before[j] == q);
                        assert(before.contains(q));
                    } else {
                        assert(cands@[k as int] == p);
                    }
                }
                assert forall|j: int| 0 <= j < k + 1 && food_cell_ok(#[trigger] cands@[j], w, h, food@) implies available@.contains(cands@[j]) by {
                    if j < k {
                        let m = choose|m: int| 0 <= m < before.len() && before[m] == cands@[j];
                        assert(available@[m] == cands@[j]);
                    } else {
                        assert(available@[before.len() as int] == cands@[j]);
                    }
                }
            }
            k = k + 1;
        }
        let ghost before = food@;
        let ghost t = heads.subrange(0, i + 1);
        assert(t.drop_last() =~= heads.subrange(0, i as int));
        assert(t.last() == hd);
        match choose_position(&available) {
            Some(pos) => {
                food.push(pos);
                assert(food@.drop_last() =~= before);
            },
            None => {
                assert forall|j: int| 0 <= j < 4 implies !food_cell_ok(#[trigger] diagonal_cells(hd)[j], w, h, food@) by {
                    if food_cell_ok(cands@[j], w, h, food@) {
                        assert(available@.contains(cands@[j]));
                    }
                }
            },
        }
        i = i + 1;
    }
    assert(heads.subrange(0, n as int) =~= heads);
    let ghost chosen = food@;
    let mut covered = false;
    let mut j: usize = 0;
    while j < n
        invariant
            n == snakes@.len(),
            j <= n,
            covered == exists|m: int| 0 <= m < j && #[trigger] snakes@[m].body@.contains(center),
        decreases n - j,
    {
        if body_contains(&snakes[j].body, center) {
            covered = true;
        }
        j = j + 1;
    }
    if !covered {
        food.push(center);
    }
    food
}

} // verus!

verus! {

/// The ruleset name the engine uses for a game type.
pub open spec fn ruleset_name(t: GameType) -> Seq<char> {
    match t {
        GameType::Standard => "standard"@,
        GameType::Royale => "royale"@,
        GameType::Constrictor => "constrictor"@,
        GameType::SnailMode => "snail_mode"@,
    }
}

/// Width and height the engine uses for a board size.
pub open spec fn board_side(b: GameBoardSize) -> i32 {
    match b {
        GameBoardSize::Small => 7,
        GameBoardSize::Medium => 11,
        GameBoardSize::Large => 19,
    }
}

/// Snake `s` is entrant `e` placed at `p` with full health and length three.
pub open spec fn spawned_snake(s: BattleSnake, e: GameBattlesnakeWithDetails, p: Position) -> bool {
    &&& s.id@ == uuid_text(e.battlesnake_id)
    &&& s.name@ == e.name@
    &&& s.head == p
    &&& s.body@ == seq![p, p, p]
    &&& s.health == 100
    &&& s.shout is None
    &&& s.actual_length is None
}

fn spawn_snake(e: &GameBattlesnakeWithDetails, p: Position) -> (s: BattleSnake)
    ensures
        spawned_snake(s, *e, p),
{
    let mut body: VecDeque<Position> = VecDeque::new();
    let mut k: usize = 0;
    while k < 3
        invariant
            k <= 3,
            body@ == Seq::new(k as nat, |i: int| p),
        decreases 3 - k,
    {
        body.push_back(p);
        k = k + 1;
        assert(body@ =~= Seq::new(k as nat, |i: int| p));
    }
    assert(body@ =~= seq![p, p, p]);
    BattleSnake {
        id: uuid_string(e.battlesnake_id),
        name: e.name.clone(),
        head: p,
        body,
        health: 100,
        shout: None,
        actual_length: None,
    }
}

/// `game` holds entrants at spawn points (as many as there are spawn points)
/// and the initial food.
pub open spec fn initial_board_ok(
    board_size: GameBoardSize,
    battlesnakes: Seq<GameBattlesnakeWithDetails>,
    game: Game,
) -> bool {
    let side = board_side(board_size) as int;
    let center = board_center(side, side);
    &&& game.board.width == board_side(board_size) as u32
    &&& game.board.height == board_side(board_size) as u32
    &&& game.board.hazards@.len() == 0
    &&& exists|spawn: Seq<Position>|
        #![trigger spawn_outcome(side, battlesnakes.len() as int, spawn)]
        spawn_outcome(side, battlesnakes.len() as int, spawn) && game.board.snakes@.len()
            == min_int(battlesnakes.len() as int, spawn.len() as int) && forall|i: int|
            0 <= i < game.board.snakes@.len() ==> spawned_snake(
                #[trigger] game.board.snakes@[i],
                battlesnakes[i],
                spawn[i],
            )
    &&& exists|chosen: Seq<Position>|
        initial_food_outcome(heads_of(game.board.snakes@), side, side, chosen) && game.board.food@
            == if covered_by_snake(game.board.snakes@, center) {
            chosen
        } else {
            chosen.push(center)
        }
}

/// `you` is a copy of the first snake, or a placeholder when there is none.
pub open spec fn initial_you_ok(game: Game) -> bool {
    if game.board.snakes@.len() > 0 {
        state_of(game.you) == state_of(game.board.snakes@[0]) && same_details(
            game.you,
            game.board.snakes@[0],
        )
    } else {
        &&& game.you.id@ == "dummy"@
        &&& game.you.name@ == "Dummy"@
        &&& game.you.head == Position { x: 0, y: 0 }
        &&& game.you.body@.len() == 0
        &&& game.you.health == 0
        &&& game.you.shout is None
        &&& game.you.actual_length is None
    }
}

/// The game-wide information of a new game.
pub open spec fn initial_info_ok(game_id: u128, game_type: GameType, game: Game) -> bool {
    &&& game.turn == 0
    &&& game.game.id@ == uuid_text(game_id)
    &&& game.game.ruleset.name@ == ruleset_name(game_type)
    &&& game.game.ruleset.version@ == "v1.0.0"@
    &&& game.game.ruleset.settings matches Some(st) && st.food_spawn_chance == 15 && st.minimum_food
        == 1 && st.hazard_damage_per_turn == 15 && st.hazard_map is None && st.hazard_map_author is None
        && st.royale is None
    &&& game.game.timeout == 500
    &&& game.game.map is None
    &&& game.game.source is None
}

/// The initial state of a game: entrants at spawn points (as many as there
/// are spawn points), initial food, no hazards, turn 0, and the first
/// snake as `you` (a placeholder snake when there is none).
pub fn create_initial_game(
    game_id: u128,
    board_size: GameBoardSize,
    game_type: GameType,
    battlesnakes: &[GameBattlesnakeWithDetails],
) -> (game: Game)
    ensures
        initial_board_ok(board_size, battlesnakes@, game),
        initial_you_ok(game),
        initial_info_ok(game_id, game_type, game),
{
    let side: i32 = match board_size {
        GameBoardSize::Small => 7,
        GameBoardSize::Medium => 11,
        GameBoardSize::Large => 19,
    };
    let name = match game_type {
        GameType::Standard => "standard",
        GameType::Royale => "royale",
        GameType::Constrictor => "constrictor",
        GameType::SnailMode => "snail_mode",
    };
    let spawn_positions = generate_spawn_positions(side, side, battlesnakes.len());
    assert(side == board_side(board_size));
    proof {
        lemma_spawn_points_distinct_and_inside(side as int, battlesnakes@.len() as int, spawn_positions@);
    }
    let mut snakes: Vec<BattleSnake> = Vec::new();
    let n = if battlesnakes.len() < spawn_positions.len() {
        battlesnakes.len()
    } else {
        spawn_positions.len()
    };
    let mut i: usize = 0;
    while i < n
        invariant
            n <= battlesnakes@.len(),
            n <= spawn_positions@.len(),
            i <= n,
            snakes@.len() == i,
            forall|k: int| 0 <= k < i ==> spawned_snake(#[trigger] snakes@[k], battlesnakes@[k], spawn_positions@[k]),
        decreases n - i,
    {
        let s = spawn_snake(&battlesnakes[i], spawn_positions[i]);
        snakes.push(s);
        i = i + 1;
    }
    proof {
        assert forall|k: int| 0 <= k < snakes@.len() implies i32::MIN < #[trigger] snakes@[k].head.x
            < i32::MAX && i32::MIN < snakes@[k].head.y < i32::MAX by {
            assert(spawn_positions@.contains(spawn_positions@[k]));
        }
    }
    let food = generate_initial_food(side, side, snakes.as_slice());
    let you = if snakes.len() > 0 {
        snakes[0].duplicate()
    } else {
        BattleSnake {
            id: owned("dummy"),
            name: owned("Dummy"),
            head: Position::new(0, 0),
            body: VecDeque::new(),
            health: 0,
            shout: None,
            actual_length: None,
        }
    };
    assert(spawn_outcome(board_side(board_size) as int, battlesnakes@.len() as int, spawn_positions@));
    assert(snakes@.len() == min_int(battlesnakes@.len() as int, spawn_positions@.len() as int));
    let ghost snakes_ghost = snakes@;
    let board = Board {
        height: side as u32,
        width: side as u32,
        food,
        snakes,
        hazards: Vec::new(),
    };
    let game = Game {
        you,
        board,
        turn: 0,
        game: NestedGame {
            id: uuid_string(game_id),
            ruleset: Ruleset {
                name: owned(name),
                version: owned("v1.0.0"),
                settings: Some(
                    Settings {
                        food_spawn_chance: 15,
                        minimum_food: 1,
                        hazard_damage_per_turn: 15,
                        hazard_map: None,
                        hazard_map_author: None,
                        royale: None,
                    },
                ),
            },
            timeout: 500,
            map: None,
            source: None,
        },
    };
    proof {
        let sd = board_side(board_size) as int;
        assert(game.board.width == board_side(board_size) as u32);
        assert(game.board.hazards@.len() == 0);
        assert(forall|i: int|
            0 <= i < game.board.snakes@.len() ==> spawned_snake(
                #[trigger] game.board.snakes@[i],
                battlesnakes@[i],
                spawn_positions@[i],
            ));
        assert(heads_of(game.board.snakes@) == heads_of(snakes_ghost));
    }
    game
}

} // verus!
