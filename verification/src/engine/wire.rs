//! Plain-value model of the Battlesnake wire representation: positions,
//! moves, snakes, boards and games.

use std::collections::VecDeque;
use vstd::prelude::*;

verus! {

/// A cell on the board; `y` grows upwards.
#[derive(Debug, Clone, Copy, PartialEq, Eq, Structural)]
pub struct Position {
    pub x: i32,
    pub y: i32,
}

/// One of the four moves a snake can make.
#[derive(Debug, Clone, Copy, PartialEq, Eq, Structural)]
pub enum Move {
    Left,
    Down,
    Up,
    Right,
}

/// The step `(dx, dy)` that a move adds to a position.
pub open spec fn move_delta(m: Move) -> (int, int) {
    match m {
        Move::Left => (-1, 0),
        Move::Right => (1, 0),
        Move::Up => (0, 1),
        Move::Down => (0, -1),
    }
}

/// Adding a step to a coordinate wraps around on `i32`, as the wire
/// representation's position arithmetic does.
/// Only a single step past either end of the range ever occurs.
pub open spec fn wrap_i32(v: int) -> i32 {
    if v > i32::MAX {
        (v - 0x1_0000_0000) as i32
    } else if v < i32::MIN {
        (v + 0x1_0000_0000) as i32
    } else {
        v as i32
    }
}

/// The position reached from `p` by making move `m`.
pub open spec fn spec_step(p: Position, m: Move) -> Position {
    Position {
        x: wrap_i32(p.x + move_delta(m).0),
        y: wrap_i32(p.y + move_delta(m).1),
    }
}

impl Position {
    pub fn new(x: i32, y: i32) -> (p: Position)
        ensures
            p.x == x,
            p.y == y,
    {
        Position { x, y }
    }

    /// The position one step away in the direction of `m`.
    pub fn step(&self, m: Move) -> (p: Position)
        ensures
            p == spec_step(*self, m),
    {
        let (dx, dy): (i32, i32) = match m {
            Move::Left => (-1, 0),
            Move::Right => (1, 0),
            Move::Up => (0, 1),
            Move::Down => (0, -1),
        };
        Position { x: self.x.wrapping_add(dx), y: self.y.wrapping_add(dy) }
    }
}

} // verus!

verus! {

/// A snake as the wire representation describes it. `body[0]` is the head
/// end of the snake and `body.back()` its tail.
#[derive(Debug)]
pub struct BattleSnake {
    pub id: String,
    pub name: String,
    pub head: Position,
    pub body: VecDeque<Position>,
    pub health: i32,
    pub shout: Option<String>,
    pub actual_length: Option<i32>,
}

/// The board: its size, the food and hazard cells and the snakes on it.
#[derive(Debug)]
pub struct Board {
    pub height: u32,
    pub width: u32,
    pub food: Vec<Position>,
    pub snakes: Vec<BattleSnake>,
    pub hazards: Vec<Position>,
}

/// Royale-mode settings.
#[derive(Debug, Clone, Copy, PartialEq, Eq, Structural)]
pub struct RoyaleSettings {
    pub shrink_every_n_turns: i32,
}

/// Ruleset settings.
#[derive(Debug)]
pub struct Settings {
    pub food_spawn_chance: i32,
    pub minimum_food: i32,
    pub hazard_damage_per_turn: i32,
    pub hazard_map: Option<String>,
    pub hazard_map_author: Option<String>,
    pub royale: Option<RoyaleSettings>,
}

/// The ruleset a game is played under.
#[derive(Debug)]
pub struct Ruleset {
    pub name: String,
    pub version: String,
    pub settings: Option<Settings>,
}

/// Game-wide information that travels with every request.
#[derive(Debug)]
pub struct NestedGame {
    pub id: String,
    pub ruleset: Ruleset,
    pub timeout: i64,
    pub map: Option<String>,
    pub source: Option<String>,
}

/// A complete game state: the board, the turn number and the snake the
/// state is addressed to (`you`).
#[derive(Debug)]
pub struct Game {
    pub you: BattleSnake,
    pub board: Board,
    pub turn: i32,
    pub game: NestedGame,
}

/// Copies an optional string.
pub fn clone_opt_string(s: &Option<String>) -> (r: Option<String>)
    ensures
        r == *s,
{
    match s {
        Some(v) => Some(v.clone()),
        None => None,
    }
}

/// Copies a sequence of positions.
pub fn clone_positions(v: &VecDeque<Position>) -> (r: VecDeque<Position>)
    ensures
        r@ == v@,
{
    let mut r: VecDeque<Position> = VecDeque::new();
    let n = v.len();
    let mut i: usize = 0;
    while i < n
        invariant
            n == v@.len(),
            i <= n,
            r@ == v@.subrange(0, i as int),
        decreases n - i,
    {
        r.push_back(v[i]);
        i = i + 1;
        assert(r@ =~= v@.subrange(0, i as int));
    }
    assert(v@.subrange(0, n as int) =~= v@);
    r
}

impl BattleSnake {
    /// A field-for-field copy of the snake.
    pub fn duplicate(&self) -> (r: BattleSnake)
        ensures
            r.id@ == self.id@,
            r.name@ == self.name@,
            r.head == self.head,
            r.body@ == self.body@,
            r.health == self.health,
            r.shout == self.shout,
            r.actual_length == self.actual_length,
    {
        BattleSnake {
            id: self.id.clone(),
            name: self.name.clone(),
            head: self.head,
            body: clone_positions(&self.body),
            health: self.health,
            shout: clone_opt_string(&self.shout),
            actual_length: self.actual_length,
        }
    }
}

/// Copies a list of cells.
pub fn copy_cells(v: &Vec<Position>) -> (r: Vec<Position>)
    ensures
        r@ == v@,
{
    let mut r: Vec<Position> = Vec::new();
    let n = v.len();
    let mut i: usize = 0;
    while i < n
        invariant
            n == v@.len(),
            i <= n,
            r@ == v@.subrange(0, i as int),
        decreases n - i,
    {
        r.push(v[i]);
        i = i + 1;
        assert(r@ =~= v@.subrange(0, i as int));
    }
    assert(v@.subrange(0, n as int) =~= v@);
    r
}

impl Settings {
    /// A field-for-field copy of the settings.
    pub fn duplicate(&self) -> (r: Settings)
        ensures
            r == *self,
    {
        Settings {
            food_spawn_chance: self.food_spawn_chance,
            minimum_food: self.minimum_food,
            hazard_damage_per_turn: self.hazard_damage_per_turn,
            hazard_map: clone_opt_string(&self.hazard_map),
            hazard_map_author: clone_opt_string(&self.hazard_map_author),
            royale: self.royale,
        }
    }
}

impl Ruleset {
    /// A field-for-field copy of the ruleset.
    pub fn duplicate(&self) -> (r: Ruleset)
        ensures
            r == *self,
    {
        Ruleset {
            name: self.name.clone(),
            version: self.version.clone(),
            settings: match &self.settings {
                Some(s) => Some(s.duplicate()),
                None => None,
            },
        }
    }
}

impl NestedGame {
    /// A field-for-field copy of the game information.
    pub fn duplicate(&self) -> (r: NestedGame)
        ensures
            r == *self,
    {
        NestedGame {
            id: self.id.clone(),
            ruleset: self.ruleset.duplicate(),
            timeout: self.timeout,
            map: clone_opt_string(&self.map),
            source: clone_opt_string(&self.source),
        }
    }
}

} // verus!
