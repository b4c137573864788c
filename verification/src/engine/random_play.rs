//! Playing a whole game with random reasonable moves, as drawn by the
//! battlesnake-game-types crate.

use vstd::prelude::*;

use std::collections::VecDeque;

use super::rules::{find_position, is_alive, states, turn_applied, SnakeState};
use super::run::{
    alive_count, game_over, id_seq, lemma_turn_lengths_and_health, placement_ids, ranks_every_snake,
    string_views, GameResult, GameRun, MAX_TURNS,
};
use super::frame::{frame_ok, game_to_frame, DeathInfo, EngineGameFrame};
use super::live::{death_ids, record_deaths};
use super::run::record_dead;
use crate::snake_client::MoveResult;
use crate::text::str_equals;
use super::wire::{spec_step, BattleSnake, Game, Move, NestedGame, Position};
use battlesnake_game_types::types::Move as WireMove;
use battlesnake_game_types::types::RandomReasonableMovesGame;
use rand::rngs::StdRng;
use rand::SeedableRng;
use battlesnake_game_types::wire_representation::BattleSnake as WireSnake;
use battlesnake_game_types::wire_representation::Board as WireBoard;
use battlesnake_game_types::wire_representation::Game as WireGame;
use battlesnake_game_types::wire_representation::NestedGame as WireNestedGame;
use battlesnake_game_types::wire_representation::Position as WirePosition;
use battlesnake_game_types::wire_representation::RoyaleSettings as WireRoyaleSettings;
use battlesnake_game_types::wire_representation::Ruleset as WireRuleset;
use battlesnake_game_types::wire_representation::Settings as WireSettings;

verus! {

#[verifier::external_type_specification]
#[verifier::external_body]
pub struct ExWireGame(WireGame);

#[verifier::external_type_specification]
#[verifier::external_body]
pub struct ExWireSnake(WireSnake);

#[verifier::external_type_specification]
#[verifier::external_body]
pub struct ExWireNestedGame(WireNestedGame);

#[verifier::external_type_specification]
#[verifier::external_body]
pub struct ExWirePosition(WirePosition);

#[verifier::external_type_specification]
#[verifier::external_body]
pub struct ExStdRng(StdRng);

/// Byte `k` (from 0) of a game id, most significant first, as a UUID holds
/// them.
pub open spec fn id_byte(id: u128, k: int) -> u8 {
    ((id >> ((8 * (15 - k)) as u128)) & 0xff) as u8
}

/// The seed a game's moves are drawn with: the game id's sixteen bytes, most
/// significant first, then sixteen zero bytes.
pub open spec fn game_seed_bytes(id: u128) -> Seq<u8> {
    Seq::new(32, |k: int| if k < 16 { id_byte(id, k) } else { 0u8 })
}

/// The seed a game's moves are drawn with.
pub fn game_seed(game_id: u128) -> (s: Vec<u8>)
    ensures
        s@ == game_seed_bytes(game_id),
{
    let mut s: Vec<u8> = Vec::new();
    let mut k: u32 = 0;
    while k < 32
        invariant
            k <= 32,
            s@.len() == k,
            forall|j: int| 0 <= j < k ==> #[trigger] s@[j] == game_seed_bytes(game_id)[j],
        decreases 32 - k,
    {
        if k < 16 {
            let shift: u32 = 8 * (15 - k);
            let b = ((game_id >> shift) & 0xff) as u8;
            assert(b == id_byte(game_id, k as int));
            s.push(b);
        } else {
            s.push(0u8);
        }
        k = k + 1;
    }
    assert(s@ =~= game_seed_bytes(game_id));
    s
}

/// Calls `StdRng::from_seed` with the given 32 bytes.
#[verifier::external_body]
fn seeded_rng(seed: &Vec<u8>) -> StdRng
    requires
        seed@.len() == 32,
{
    let mut bytes = [0u8; 32];
    bytes.copy_from_slice(seed.as_slice());
    StdRng::from_seed(bytes)
}

/// Calls `StdRng::from_entropy`: a generator seeded from the operating
/// system's randomness.
#[verifier::external_body]
fn entropy_rng() -> StdRng {
    StdRng::from_entropy()
}

/// Builds battlesnake-game-types' `Position` from the library's, with the
/// same coordinates.
#[verifier::external_body]
fn wire_position(p: Position) -> WirePosition {
    WirePosition { x: p.x, y: p.y }
}

/// Builds battlesnake-game-types' `BattleSnake` from the library's, field
/// for field.
#[verifier::external_body]
fn wire_snake(s: &BattleSnake) -> WireSnake {
    WireSnake {
        id: s.id.clone(),
        name: s.name.clone(),
        head: wire_position(s.head),
        body: s.body.iter().map(|p| wire_position(*p)).collect(),
        health: s.health,
        shout: s.shout.clone(),
        actual_length: s.actual_length,
    }
}

/// Builds battlesnake-game-types' `NestedGame` (with its ruleset and
/// settings) from the library's, field for field.
#[verifier::external_body]
fn wire_nested_game(g: &NestedGame) -> WireNestedGame {
    let settings = g.ruleset.settings.as_ref().map(|s| WireSettings {
        food_spawn_chance: s.food_spawn_chance,
        minimum_food: s.minimum_food,
        hazard_damage_per_turn: s.hazard_damage_per_turn,
        hazard_map: s.hazard_map.clone(),
        hazard_map_author: s.hazard_map_author.clone(),
        royale: s.royale.map(|r| WireRoyaleSettings { shrink_every_n_turns: r.shrink_every_n_turns }),
    });
    let ruleset = WireRuleset { name: g.ruleset.name.clone(), version: g.ruleset.version.clone(), settings };
    WireNestedGame { id: g.id.clone(), ruleset, timeout: g.timeout, map: g.map.clone(), source: g.source.clone() }
}

/// Builds battlesnake-game-types' `Game` from the library's, field for field.
#[verifier::external_body]
fn wire_game(g: &Game) -> WireGame {
    let board = WireBoard {
        height: g.board.height,
        width: g.board.width,
        food: g.board.food.iter().map(|p| wire_position(*p)).collect(),
        snakes: g.board.snakes.iter().map(wire_snake).collect(),
        hazards: g.board.hazards.iter().map(|p| wire_position(*p)).collect(),
    };
    WireGame { you: wire_snake(&g.you), board, turn: g.turn, game: wire_nested_game(&g.game) }
}

/// Whether the game is played on a board that wraps around.
pub open spec fn is_wrapped(game: Game) -> bool {
    game.game.ruleset.name@ == "wrapped"@
}

/// The damage a hazard cell deals, as the crate reads it from the settings
/// (15 without settings, cut to a byte).
pub open spec fn hazard_damage(game: Game) -> int {
    let d: i32 = match game.game.ruleset.settings {
        Some(s) => s.hazard_damage_per_turn,
        None => 15,
    };
    (d as u8) as int
}

/// A cell a snake may move to: on the board, on no snake's body, and not a
/// hazard that would kill it.
pub open spec fn cell_ok(game: Game, s: BattleSnake, p: Position) -> bool {
    &&& 0 <= p.x < (game.board.width as i32)
    &&& 0 <= p.y < (game.board.height as i32)
    &&& forall|k: int|
        0 <= k < game.board.snakes@.len() ==> !(#[trigger] game.board.snakes@[k]).body@.contains(p)
    &&& !(game.board.hazards@.contains(p) && hazard_damage(game) >= s.health)
}

/// A move that neither leaves the board, nor runs into any snake's body,
/// nor into a hazard that would kill the snake (on a board without
/// wrapping).
pub open spec fn reasonable(game: Game, s: BattleSnake, m: Move) -> bool {
    cell_ok(game, s, spec_step(s.head, m))
}

/// `x.rem_euclid(w)`: the remainder of `x` by the size of `w`, from 0 up.
pub open spec fn wrap_coord(x: i32, w: i32) -> i32 {
    let size: int = if w < 0 {
        -(w as int)
    } else {
        w as int
    };
    ((x as int) % size) as i32
}

/// `x.rem_euclid(w)` returns: `w` is not zero, and the division does not
/// overflow.
pub open spec fn wrap_ok(x: i32, w: i32) -> bool {
    w != 0 && !(x == i32::MIN && w == -1)
}

/// Where a move takes a snake on a wrapping board: the step, wrapped by the
/// board's sides.
pub open spec fn wrapped_cell(game: Game, s: BattleSnake, m: Move) -> Position {
    let nh = spec_step(s.head, m);
    Position {
        x: wrap_coord(nh.x, game.board.width as i32),
        y: wrap_coord(nh.y, game.board.height as i32),
    }
}

/// Every move of the snake can be wrapped by the board's sides.
pub open spec fn wraps_safely(game: Game, s: BattleSnake) -> bool {
    forall|m: Move|
        wrap_ok(#[trigger] spec_step(s.head, m).x, game.board.width as i32) && wrap_ok(
            spec_step(s.head, m).y,
            game.board.height as i32,
        )
}

/// A reasonable move on a wrapping board.
pub open spec fn wrapped_reasonable(game: Game, s: BattleSnake, m: Move) -> bool {
    cell_ok(game, s, wrapped_cell(game, s, m))
}

/// On a wrapping board, every snake's moves can be wrapped, and a snake
/// needs a neck to turn away from only when it has no reasonable move.
pub open spec fn wrapped_draw_safe(game: Game) -> bool {
    forall|i: int|
        0 <= i < game.board.snakes@.len() ==> wraps_safely(game, #[trigger] game.board.snakes@[i])
            && (game.board.snakes@[i].body@.len() >= 2 || exists|m: Move|
            wrapped_reasonable(game, game.board.snakes@[i], m))
}

/// On a board without wrapping, a snake needs a neck to turn away from
/// only when it has no reasonable move.
pub open spec fn open_draw_safe(game: Game) -> bool {
    forall|i: int|
        0 <= i < game.board.snakes@.len() ==> (#[trigger] game.board.snakes@[i]).body@.len() >= 2
            || exists|m: Move| reasonable(game, game.board.snakes@[i], m)
}

/// The games on which random moves can be drawn.
pub open spec fn draw_safe(game: Game) -> bool {
    if is_wrapped(game) {
        wrapped_draw_safe(game)
    } else {
        open_draw_safe(game)
    }
}

/// Moves as the crate draws them for `game`: one per snake on the board,
/// in board order, addressed by the snake's id; a reasonable one whenever
/// the snake has one (reasonable on the wrapped board when the board wraps).
pub open spec fn drawn_moves(game: Game, m: Seq<(String, Move)>) -> bool {
    &&& m.len() == game.board.snakes@.len()
    &&& forall|i: int| 0 <= i < m.len() ==> (#[trigger] m[i]).0@ == game.board.snakes@[i].id@
    &&& forall|i: int|
        0 <= i < m.len() && !is_wrapped(game) && (exists|mv: Move|
            reasonable(game, game.board.snakes@[i], mv)) ==> reasonable(
            game,
            game.board.snakes@[i],
            (#[trigger] m[i]).1,
        )
    &&& forall|i: int|
        0 <= i < m.len() && is_wrapped(game) && (exists|mv: Move|
            wrapped_reasonable(game, game.board.snakes@[i], mv)) ==> wrapped_reasonable(
            game,
            game.board.snakes@[i],
            (#[trigger] m[i]).1,
        )
}

/// One turn of random play: from a game that is not over, moves drawn for
/// it are applied, the turn counter goes up by one, and the newly dead are
/// recorded.
pub open spec fn turn_step(a: Game, oa: Seq<Seq<char>>, b: Game, ob: Seq<Seq<char>>) -> bool {
    &&& !game_over(a)
    &&& b.turn == a.turn + 1
    &&& exists|m: Seq<(String, Move)>| drawn_moves(a, m) && turn_applied(a, m, b)
    &&& ob == record_dead(oa, states(b.board.snakes@))
}

/// Consecutive games and elimination records, each reached from the one
/// before by a turn of random play.
pub open spec fn trace_ok(gs: Seq<Game>, os: Seq<Seq<Seq<char>>>) -> bool {
    &&& gs.len() >= 1
    &&& os.len() == gs.len()
    &&& forall|k: int| 0 <= k < gs.len() - 1 ==> turn_step(gs[k], os[k], #[trigger] gs[k + 1], os[k + 1])
}

/// `g`, with the elimination record `o`, is an ended game reached from
/// `game` by turns of random play, starting with nothing eliminated.
pub open spec fn played(game: Game, g: Game, o: Seq<Seq<char>>) -> bool {
    &&& game_over(g)
    &&& exists|gs: Seq<Game>, os: Seq<Seq<Seq<char>>>|
        #![trigger trace_ok(gs, os)]
        trace_ok(gs, os) && gs[0] == game && os[0] == Seq::<Seq<char>>::empty() && gs.last() == g
            && os.last() == o
}

/// Every body has at least two segments and, on a wrapping board, both
/// sides lie between 1 and `i32::MAX`: moves can then be drawn on every
/// turn.
pub open spec fn always_drawable(game: Game) -> bool {
    &&& forall|i: int| 0 <= i < game.board.snakes@.len() ==> (#[trigger] game.board.snakes@[i]).body@.len() >= 2
    &&& is_wrapped(game) ==> 0 < game.board.width <= i32::MAX && 0 < game.board.height <= i32::MAX
}

/// Moves can be drawn for a game whose bodies are long enough and whose
/// wrapping board has usable sides.
pub proof fn lemma_always_drawable(game: Game)
    requires
        always_drawable(game),
    ensures
        draw_safe(game),
{
    if is_wrapped(game) {
        let w = game.board.width as i32;
        let h = game.board.height as i32;
        assert(w == game.board.width && h == game.board.height);
        assert forall|i: int| 0 <= i < game.board.snakes@.len() implies wraps_safely(
            game,
            #[trigger] game.board.snakes@[i],
        ) && (game.board.snakes@[i].body@.len() >= 2 || exists|m: Move|
            wrapped_reasonable(game, game.board.snakes@[i], m)) by {
            assert(game.board.snakes@[i].body@.len() >= 2);
        }
    } else {
        assert forall|i: int| 0 <= i < game.board.snakes@.len() implies (#[trigger] game.board.snakes@[i]).body@.len() >= 2
            || exists|m: Move| reasonable(game, game.board.snakes@[i], m) by {
            assert(game.board.snakes@[i].body@.len() >= 2);
        }
    }
}

/// A turn keeps a game where moves can always be drawn such a game.
pub proof fn lemma_always_drawable_stays(game: Game, moves: Seq<(String, Move)>, r: Game)
    requires
        always_drawable(game),
        turn_applied(game, moves, r),
    ensures
        always_drawable(r),
{
    lemma_turn_lengths_and_health(game, moves, r);
    assert forall|i: int| 0 <= i < r.board.snakes@.len() implies (#[trigger] r.board.snakes@[i]).body@.len() >= 2 by {
        assert(states(game.board.snakes@)[i].body.len() >= 2);
        assert(states(r.board.snakes@)[i].body == r.board.snakes@[i].body@);
    }
}

/// Calls `RandomReasonableMovesGame::random_reasonable_move_for_each_snake`
/// on the crate's form of the game, drawing from `rng`. It yields one
/// move per snake on the board, in board order; on a board without wrapping
/// the move is a reasonable one whenever the snake has one. Which move is
/// drawn is random. On a wrapping board the new head is first wrapped by
/// the board's sides with `i32::rem_euclid`, which panics on a side of zero
/// (or on an overflowing division), and the move is a reasonable one on the
/// wrapped board whenever the snake has one. A snake without a reasonable
/// move gets one that does not turn back onto its second segment, which a
/// one-segment body lacks. `draw_safe` keeps out both panics.
#[verifier::external_body]
fn random_reasonable_moves(game: &Game, rng: &mut StdRng) -> (r: Vec<(String, Move)>)
    requires
        draw_safe(*game),
    ensures
        drawn_moves(*game, r@),
{
    let w = wire_game(game);
    w.random_reasonable_move_for_each_snake(rng).map(|(id, m)| {
        let mv = match m {
            WireMove::Left => Move::Left,
            WireMove::Down => Move::Down,
            WireMove::Up => Move::Up,
            WireMove::Right => Move::Right,
        };
        (id, mv)
    }).collect()
}

/// Whether `body` holds `p`.
fn body_contains(body: &VecDeque<Position>, p: Position) -> (r: bool)
    ensures
        r == body@.contains(p),
{
    let n = body.len();
    let mut j: usize = 0;
    while j < n
        invariant
            n == body@.len(),
            j <= n,
            forall|k: int| 0 <= k < j ==> body@[k] != p,
        decreases n - j,
    {
        if body[j] == p {
            assert(body@[j as int] == p);
            return true;
        }
        j = j + 1;
    }
    false
}

/// Whether `p` lies on the body of some snake.
fn on_some_body(snakes: &Vec<BattleSnake>, p: Position) -> (r: bool)
    ensures
        r == !(forall|k: int| 0 <= k < snakes@.len() ==> !(#[trigger] snakes@[k]).body@.contains(p)),
{
    let n = snakes.len();
    let mut k: usize = 0;
    while k < n
        invariant
            n == snakes@.len(),
            k <= n,
            forall|j: int| 0 <= j < k ==> !(#[trigger] snakes@[j]).body@.contains(p),
        decreases n - k,
    {
        if body_contains(&snakes[k].body, p) {
            return true;
        }
        k = k + 1;
    }
    false
}

/// The damage a hazard cell deals.
fn hazard_damage_of(game: &Game) -> (d: u8)
    ensures
        d as int == hazard_damage(*game),
{
    let d: i32 = match &game.game.ruleset.settings {
        Some(s) => s.hazard_damage_per_turn,
        None => 15,
    };
    #[verifier::truncate]
    (d as u8)
}

/// Whether snake `i` may move to `p`.
fn is_cell_ok(game: &Game, i: usize, p: Position) -> (r: bool)
    requires
        i < game.board.snakes@.len(),
    ensures
        r == cell_ok(*game, game.board.snakes@[i as int], p),
{
    let s = &game.board.snakes[i];
    let w = #[verifier::truncate] (game.board.width as i32);
    let h = #[verifier::truncate] (game.board.height as i32);
    if !(0 <= p.x && p.x < w && 0 <= p.y && p.y < h) {
        return false;
    }
    if on_some_body(&game.board.snakes, p) {
        return false;
    }
    let on_hazard = find_position(&game.board.hazards, p).is_some();
    let damage = hazard_damage_of(game);
    !(on_hazard && damage as i32 >= s.health)
}

/// Whether move `m` is a reasonable one for snake `i`.
fn is_reasonable(game: &Game, i: usize, m: Move) -> (r: bool)
    requires
        i < game.board.snakes@.len(),
    ensures
        r == reasonable(*game, game.board.snakes@[i as int], m),
{
    let nh = game.board.snakes[i].head.step(m);
    is_cell_ok(game, i, nh)
}

/// Whether snake `i` has a reasonable move.
fn has_reasonable_move(game: &Game, i: usize) -> (r: bool)
    requires
        i < game.board.snakes@.len(),
    ensures
        r == exists|m: Move| reasonable(*game, game.board.snakes@[i as int], m),
{
    let ghost s = game.board.snakes@[i as int];
    if is_reasonable(game, i, Move::Up) || is_reasonable(game, i, Move::Down)
        || is_reasonable(game, i, Move::Left) || is_reasonable(game, i, Move::Right) {
        return true;
    }
    proof {
        assert forall|m: Move| !reasonable(*game, s, m) by {
            match m {
                Move::Up => {},
                Move::Down => {},
                Move::Left => {},
                Move::Right => {},
            }
        }
    }
    false
}

/// Whether `x.rem_euclid(w)` returns.
fn can_wrap(x: i32, w: i32) -> (r: bool)
    ensures
        r == wrap_ok(x, w),
{
    w != 0 && !(x == i32::MIN && w == -1)
}

/// `x.rem_euclid(w)`, worked out on non-negative numbers.
fn wrap(x: i32, w: i32) -> (r: i32)
    requires
        wrap_ok(x, w),
    ensures
        r == wrap_coord(x, w),
{
    let size: i64 = if w < 0 {
        -(w as i64)
    } else {
        w as i64
    };
    assert(2147483648 * size <= 0x4000_0000_0000_0000) by (nonlinear_arith)
        requires
            1 <= size <= 2147483648,
    ;
    assert(2147483648 * size >= 2147483648) by (nonlinear_arith)
        requires
            1 <= size,
    ;
    let shifted: i64 = x as i64 + 2147483648 * size;
    let u: u64 = (shifted as u64) % (size as u64);
    proof {
        vstd::arithmetic::div_mod::lemma_mod_multiples_vanish(2147483648, x as int, size as int);
        assert(size * 2147483648 + x == shifted);
    }
    u as i32
}

/// Whether every move of snake `i` can be wrapped by the board's sides.
fn can_wrap_moves(game: &Game, i: usize) -> (r: bool)
    requires
        i < game.board.snakes@.len(),
    ensures
        r == wraps_safely(*game, game.board.snakes@[i as int]),
{
    let ghost s = game.board.snakes@[i as int];
    let head = game.board.snakes[i].head;
    let w = #[verifier::truncate] (game.board.width as i32);
    let h = #[verifier::truncate] (game.board.height as i32);
    let up = head.step(Move::Up);
    let down = head.step(Move::Down);
    let left = head.step(Move::Left);
    let right = head.step(Move::Right);
    let ok = can_wrap(up.x, w) && can_wrap(up.y, h) && can_wrap(down.x, w) && can_wrap(down.y, h)
        && can_wrap(left.x, w) && can_wrap(left.y, h) && can_wrap(right.x, w) && can_wrap(right.y, h);
    proof {
        if ok {
            assert forall|m: Move|
                wrap_ok(#[trigger] spec_step(s.head, m).x, w) && wrap_ok(spec_step(s.head, m).y, h) by {
                match m {
                    Move::Up => {},
                    Move::Down => {},
                    Move::Left => {},
                    Move::Right => {},
                }
            }
        } else {
            assert(!(wrap_ok(spec_step(s.head, Move::Up).x, w) && wrap_ok(spec_step(s.head, Move::Up).y, h))
                || !(wrap_ok(spec_step(s.head, Move::Down).x, w) && wrap_ok(spec_step(s.head, Move::Down).y, h))
                || !(wrap_ok(spec_step(s.head, Move::Left).x, w) && wrap_ok(spec_step(s.head, Move::Left).y, h))
                || !(wrap_ok(spec_step(s.head, Move::Right).x, w) && wrap_ok(spec_step(s.head, Move::Right).y, h)));
        }
    }
    ok
}

/// Whether move `m` is a reasonable one for snake `i` on a wrapping board.
fn is_wrapped_reasonable(game: &Game, i: usize, m: Move) -> (r: bool)
    requires
        i < game.board.snakes@.len(),
        wraps_safely(*game, game.board.snakes@[i as int]),
    ensures
        r == wrapped_reasonable(*game, game.board.snakes@[i as int], m),
{
    let nh = game.board.snakes[i].head.step(m);
    let w = #[verifier::truncate] (game.board.width as i32);
    let h = #[verifier::truncate] (game.board.height as i32);
    let p = Position { x: wrap(nh.x, w), y: wrap(nh.y, h) };
    is_cell_ok(game, i, p)
}

/// Whether snake `i` has a reasonable move on a wrapping board.
fn has_wrapped_reasonable_move(game: &Game, i: usize) -> (r: bool)
    requires
        i < game.board.snakes@.len(),
        wraps_safely(*game, game.board.snakes@[i as int]),
    ensures
        r == exists|m: Move| wrapped_reasonable(*game, game.board.snakes@[i as int], m),
{
    let ghost s = game.board.snakes@[i as int];
    if is_wrapped_reasonable(game, i, Move::Up) || is_wrapped_reasonable(game, i, Move::Down)
        || is_wrapped_reasonable(game, i, Move::Left) || is_wrapped_reasonable(game, i, Move::Right) {
        return true;
    }
    proof {
        assert forall|m: Move| !wrapped_reasonable(*game, s, m) by {
            match m {
                Move::Up => {},
                Move::Down => {},
                Move::Left => {},
                Move::Right => {},
            }
        }
    }
    false
}

/// Whether the board wraps around.
fn wraps(game: &Game) -> (r: bool)
    ensures
        r == is_wrapped(*game),
{
    proof {
        reveal_strlit("wrapped");
    }
    str_equals(game.game.ruleset.name.as_str(), "wrapped")
}

/// Whether random moves can be drawn for this game.
pub fn can_draw(game: &Game) -> (r: bool)
    ensures
        r == draw_safe(*game),
{
    let snakes = &game.board.snakes;
    let n = snakes.len();
    let wrapped = wraps(game);
    let mut i: usize = 0;
    while i < n
        invariant
            n == snakes@.len(),
            snakes@ == game.board.snakes@,
            wrapped == is_wrapped(*game),
            i <= n,
            forall|j: int|
                0 <= j < i ==> if wrapped {
                    wraps_safely(*game, #[trigger] snakes@[j]) && (snakes@[j].body@.len() >= 2
                        || exists|m: Move| wrapped_reasonable(*game, snakes@[j], m))
                } else {
                    snakes@[j].body@.len() >= 2 || exists|m: Move| reasonable(*game, snakes@[j], m)
                },
        decreases n - i,
    {
        let long = snakes[i].body.len() >= 2;
        if wrapped {
            if !can_wrap_moves(game, i) {
                return false;
            }
            if !long && !has_wrapped_reasonable_move(game, i) {
                return false;
            }
        } else if !long && !has_reasonable_move(game, i) {
            return false;
        }
        i = i + 1;
    }
    true
}

/// Whether no snake is dead yet.
pub open spec fn all_alive(g: Seq<SnakeState>) -> bool {
    forall|i: int| 0 <= i < g.len() ==> is_alive(#[trigger] g[i])
}

/// Plays a game to its end with random reasonable moves and ranks the
/// snakes: the survivors first, then the eliminated ones from the last to
/// die to the first. A game that is already over is ranked as it stands;
/// otherwise at least one turn is played. Gives none when, on some turn, a
/// snake with a one-segment body has no reasonable move, or, on a wrapping
/// board, a move cannot be wrapped by the board's sides: the crate cannot
/// draw moves then. That never happens when every body has two segments and
/// a wrapping board has sides between 1 and `i32::MAX`.
pub fn run_game_with_random_moves(game: Game) -> (r: Option<GameResult>)
    ensures
        game_over(game) ==> (r matches Some(res) && res.final_turn == game.turn),
        (!game_over(game) && !draw_safe(game)) ==> r is None,
        (!game_over(game) && always_drawable(game)) ==> r is Some,
        r matches Some(res) ==> exists|g: Game, o: Seq<Seq<char>>|
            #[trigger] played(game, g, o) && string_views(res.placements@) == placement_ids(
                states(g.board.snakes@),
                o,
            ) && res.final_turn == g.turn,
        (r matches Some(res) && !game_over(game)) ==> r->0.final_turn > game.turn,
        r matches Some(res) ==> {
            &&& game.turn <= res.final_turn
            &&& game.turn <= MAX_TURNS ==> res.final_turn <= MAX_TURNS
            &&& game.turn >= MAX_TURNS ==> res.final_turn == game.turn
            &&& (id_seq(states(game.board.snakes@)).no_duplicates() && (all_alive(
                states(game.board.snakes@),
            ) || !game_over(game))) ==> ranks_every_snake(
                string_views(res.placements@),
                states(game.board.snakes@),
            )
        },
{
    let ghost g0 = states(game.board.snakes@);
    let ghost ids0 = id_seq(g0);
    let ghost start = game.turn;
    let ghost over0 = game_over(game);
    let ghost safe0 = draw_safe(game);
    let ghost able0 = always_drawable(game);
    let mut run = GameRun::new(game);
    let mut rng = entropy_rng();
    let ghost mut gs: Seq<Game> = seq![run.game];
    let ghost mut os: Seq<Seq<Seq<char>>> = seq![Seq::<Seq<char>>::empty()];
    proof {
        assert(string_views(run.elimination_order@) =~= Seq::<Seq<char>>::empty());
        if all_alive(g0) {
            assert forall|j: int| 0 <= j < game.board.snakes@.len() implies is_alive(
                #[trigger] states(game.board.snakes@)[j],
            ) by {
                assert(is_alive(g0[j]));
            }
        }
    }
    while !run.is_over()
        invariant
            start <= run.game.turn,
            start <= MAX_TURNS ==> run.game.turn <= MAX_TURNS,
            start >= MAX_TURNS ==> run.game.turn == start,
            g0 == states(game.board.snakes@),
            start == game.turn,
            over0 == game_over(game),
            safe0 == draw_safe(game),
            able0 == always_drawable(game),
            run.game.turn == start ==> run.game == game,
            over0 ==> run.game.turn == start,
            (!over0 && !safe0) ==> run.game.turn == start,
            able0 ==> always_drawable(run.game),
            id_seq(states(run.game.board.snakes@)) == ids0,
            run.record_sound(),
            (all_alive(g0) || run.game.turn > start) ==> run.record_exact(),
            trace_ok(gs, os),
            gs[0] == game,
            os[0] == Seq::<Seq<char>>::empty(),
            gs.last() == run.game,
            os.last() == string_views(run.elimination_order@),
        decreases MAX_TURNS - run.game.turn,
    {
        if !can_draw(&run.game) {
            proof {
                if able0 {
                    lemma_always_drawable(run.game);
                }
            }
            return None;
        }
        let moves = random_reasonable_moves(&run.game, &mut rng);
        let ghost before = run.game;
        let ghost order_before = string_views(run.elimination_order@);
        let _newly = run.advance(moves.as_slice());
        proof {
            if able0 {
                lemma_always_drawable_stays(before, moves@, run.game);
            }
            let gs1 = gs.push(run.game);
            let os1 = os.push(string_views(run.elimination_order@));
            assert(drawn_moves(before, moves@) && turn_applied(before, moves@, run.game));
            assert(turn_step(before, order_before, run.game, string_views(run.elimination_order@)));
            assert forall|k: int| 0 <= k < gs1.len() - 1 implies turn_step(
                gs1[k],
                os1[k],
                #[trigger] gs1[k + 1],
                os1[k + 1],
            ) by {
                if k < gs.len() - 1 {
                    assert(gs1[k] == gs[k] && gs1[k + 1] == gs[k + 1]);
                    assert(os1[k] == os[k] && os1[k + 1] == os[k + 1]);
                } else {
                    assert(gs1[k] == before && gs1[k + 1] == run.game);
                }
            }
            gs = gs1;
            os = os1;
        }
    }
    proof {
        assert(trace_ok(gs, os));
        assert(states(run.game.board.snakes@).len() == g0.len()) by {
            assert(id_seq(states(run.game.board.snakes@)).len() == ids0.len());
        }
    }
    let ghost final_game = run.game;
    let ghost final_order = string_views(run.elimination_order@);
    let ghost exact = run.record_exact();
    let res = run.finish();
    proof {
        assert(played(game, final_game, final_order));
        if ids0.no_duplicates() && (all_alive(g0) || !over0) {
            assert(exact);
            assert(ranks_every_snake(string_views(res.placements@), states(final_game.board.snakes@)));
            assert(id_seq(states(final_game.board.snakes@)) == ids0);
        }
    }
    Some(res)
}

/// A game played with moves drawn from a generator seeded by the game's
/// id, one turn at a time, keeping a record of the deaths: the caller stores
/// each frame it is given.
pub struct SeededGame {
    pub run: GameRun,
    pub death_info: Vec<DeathInfo>,
    pub rng: StdRng,
}

impl SeededGame {
    /// One death is recorded for each eliminated snake, in the order of
    /// elimination, and only dead snakes are recorded, each once.
    pub open spec fn wf(&self) -> bool {
        &&& death_ids(self.death_info@) == string_views(self.run.elimination_order@)
        &&& self.run.record_sound()
    }

    /// Starts a game whose moves are drawn from a generator seeded by
    /// `game_id`: nothing eliminated, no death recorded; the record is exact
    /// when every snake is alive.
    pub fn new(game: Game, game_id: u128) -> (r: SeededGame)
        ensures
            r.wf(),
            r.run.game == game,
            r.run.elimination_order@.len() == 0,
            r.death_info@.len() == 0,
            all_alive(states(game.board.snakes@)) ==> r.run.record_exact(),
    {
        proof {
            if all_alive(states(game.board.snakes@)) {
                assert forall|j: int| 0 <= j < game.board.snakes@.len() implies is_alive(
                    #[trigger] states(game.board.snakes@)[j],
                ) by {}
            }
        }
        let seed = game_seed(game_id);
        let r = SeededGame { run: GameRun::new(game), death_info: Vec::new(), rng: seeded_rng(&seed) };
        proof {
            assert(death_ids(r.death_info@) =~= string_views(r.run.elimination_order@));
        }
        r
    }

    /// The game ends when at most one snake is alive or the turn limit is
    /// reached.
    pub fn is_over(&self) -> (r: bool)
        ensures
            r == self.run.over(),
    {
        self.run.is_over()
    }

    /// The frame of the board as it stands.
    pub fn frame(&self) -> (f: EngineGameFrame)
        ensures
            frame_ok(f, self.run.game, self.death_info@, Seq::empty()),
    {
        let none: Vec<MoveResult> = Vec::new();
        game_to_frame(&self.run.game, self.death_info.as_slice(), none.as_slice())
    }

    /// Plays one turn: draws a move for every snake from the seeded
    /// generator, applies the turn, records a death on the new turn for each
    /// snake eliminated by it, and returns the frame to store. Gives none,
    /// and changes nothing, when no move can be drawn for some snake.
    pub fn step(&mut self) -> (f: Option<EngineGameFrame>)
        requires
            old(self).wf(),
            !old(self).run.over(),
        ensures
            final(self).wf(),
            !draw_safe(old(self).run.game) ==> f is None && final(self).run == old(self).run
                && final(self).death_info@ == old(self).death_info@,
            always_drawable(old(self).run.game) ==> f is Some && always_drawable(final(self).run.game),
            draw_safe(old(self).run.game) ==> {
                &&& f is Some
                &&& exists|m: Seq<(String, Move)>|
                    drawn_moves(old(self).run.game, m) && turn_applied(old(self).run.game, m, final(self).run.game)
                &&& final(self).run.game.turn == old(self).run.game.turn + 1
                &&& id_seq(states(final(self).run.game.board.snakes@)) == id_seq(
                    states(old(self).run.game.board.snakes@),
                )
                &&& final(self).run.record_exact()
                &&& string_views(final(self).run.elimination_order@) == record_dead(
                    string_views(old(self).run.elimination_order@),
                    states(final(self).run.game.board.snakes@),
                )
                &&& final(self).death_info@.subrange(0, old(self).death_info@.len() as int)
                    == old(self).death_info@
                &&& forall|k: int|
                    old(self).death_info@.len() <= k < final(self).death_info@.len() ==> {
                        &&& (#[trigger] final(self).death_info@[k]).turn == final(self).run.game.turn
                        &&& final(self).death_info@[k].cause@ == "eliminated"@
                        &&& final(self).death_info@[k].eliminated_by@ == ""@
                    }
            },
            f matches Some(fr) ==> frame_ok(fr, final(self).run.game, final(self).death_info@, Seq::empty()),
    {
        if !can_draw(&self.run.game) {
            proof {
                if always_drawable(self.run.game) {
                    lemma_always_drawable(self.run.game);
                }
            }
            return None;
        }
        let moves = random_reasonable_moves(&self.run.game, &mut self.rng);
        let ghost before = self.run.game;
        let newly = self.run.advance(moves.as_slice());
        proof {
            assert(drawn_moves(before, moves@) && turn_applied(before, moves@, self.run.game));
            if always_drawable(before) {
                lemma_always_drawable_stays(before, moves@, self.run.game);
            }
        }
        record_deaths(&mut self.death_info, &newly, self.run.game.turn);
        Some(self.frame())
    }

    /// Ends the game: the ranking and the final turn. With distinct ids and
    /// an exact record, every snake is ranked exactly once.
    pub fn finish(self) -> (r: GameResult)
        ensures
            string_views(r.placements@) == placement_ids(
                states(self.run.game.board.snakes@),
                string_views(self.run.elimination_order@),
            ),
            r.final_turn == self.run.game.turn,
            (id_seq(states(self.run.game.board.snakes@)).no_duplicates() && self.run.record_exact())
                ==> ranks_every_snake(string_views(r.placements@), states(self.run.game.board.snakes@)),
    {
        self.run.finish()
    }
}

} // verus!
