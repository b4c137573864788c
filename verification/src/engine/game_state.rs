//! A simple grid game state: coordinates, directions, snakes and the board.

use vstd::prelude::*;

use crate::text::{all_ascii, ascii_lowered, ascii_uppered, lowercase, str_equals, to_lowercase};
use std::collections::HashMap;
use vstd::std_specs::iter::IteratorSpec;

verus! {

/// A cell on an unsigned grid; `y` grows upwards.
#[derive(Debug, Clone, Copy, PartialEq, Eq, Structural)]
pub struct Coordinate {
    pub x: u32,
    pub y: u32,
}

/// The four directions of movement.
#[derive(Debug, Clone, Copy, PartialEq, Eq, Structural)]
pub enum Direction {
    Up,
    Down,
    Left,
    Right,
}

/// The cell one step away; steps below zero stay at zero.
pub open spec fn spec_apply_direction(c: Coordinate, d: Direction) -> Coordinate {
    match d {
        Direction::Up => Coordinate { x: c.x, y: (c.y + 1) as u32 },
        Direction::Down => Coordinate { x: c.x, y: if c.y > 0 { (c.y - 1) as u32 } else { 0 } },
        Direction::Left => Coordinate { x: if c.x > 0 { (c.x - 1) as u32 } else { 0 }, y: c.y },
        Direction::Right => Coordinate { x: (c.x + 1) as u32, y: c.y },
    }
}

impl Coordinate {
    /// The neighbouring cell in direction `direction`; moving down or left
    /// from zero stays at zero. Moving up or right past `u32::MAX` is not
    /// defined.
    pub fn apply_direction(&self, direction: Direction) -> (r: Coordinate)
        requires
            direction == Direction::Up ==> self.y < u32::MAX,
            direction == Direction::Right ==> self.x < u32::MAX,
        ensures
            r == spec_apply_direction(*self, direction),
    {
        match direction {
            Direction::Up => Coordinate { x: self.x, y: self.y + 1 },
            Direction::Down => Coordinate { x: self.x, y: self.y.saturating_sub(1) },
            Direction::Left => Coordinate { x: self.x.saturating_sub(1), y: self.y },
            Direction::Right => Coordinate { x: self.x + 1, y: self.y },
        }
    }
}

pub open spec fn direction_name(d: Direction) -> Seq<char> {
    match d {
        Direction::Up => "up"@,
        Direction::Down => "down"@,
        Direction::Left => "left"@,
        Direction::Right => "right"@,
    }
}

/// The direction an already lowercased name denotes.
pub open spec fn direction_from_lower(l: Seq<char>) -> Option<Direction> {
    if l == "up"@ {
        Some(Direction::Up)
    } else if l == "down"@ {
        Some(Direction::Down)
    } else if l == "left"@ {
        Some(Direction::Left)
    } else if l == "right"@ {
        Some(Direction::Right)
    } else {
        None
    }
}

impl Direction {
    /// The direction an already lowercased name denotes.
    pub fn from_lowercase(l: &str) -> (r: Option<Direction>)
        ensures
            r == direction_from_lower(l@),
    {
        if str_equals(l, "up") {
            Some(Direction::Up)
        } else if str_equals(l, "down") {
            Some(Direction::Down)
        } else if str_equals(l, "left") {
            Some(Direction::Left)
        } else if str_equals(l, "right") {
            Some(Direction::Right)
        } else {
            None
        }
    }

    /// Parses a direction name, ignoring case.
    pub fn from_str(s: &str) -> (r: Option<Direction>)
        ensures
            r == direction_from_lower(lowercase(s@)),
            all_ascii(s@) ==> r == direction_from_lower(ascii_lowered(s@)),
    {
        let l = to_lowercase(s);
        Direction::from_lowercase(l.as_str())
    }

    pub fn as_str(&self) -> (r: &'static str)
        ensures
            r@ == direction_name(*self),
    {
        match self {
            Direction::Up => "up",
            Direction::Down => "down",
            Direction::Left => "left",
            Direction::Right => "right",
        }
    }
}

/// Reading a direction ignores case: on ASCII text, a text and its
/// lowercase form name the same direction, and a direction's name in capitals
/// reads back as that direction.
pub proof fn lemma_direction_ignores_case(s: Seq<char>, d: Direction)
    requires
        all_ascii(s),
    ensures
        all_ascii(ascii_lowered(s)),
        direction_from_lower(ascii_lowered(ascii_lowered(s))) == direction_from_lower(ascii_lowered(s)),
        all_ascii(ascii_uppered(direction_name(d))),
        direction_from_lower(ascii_lowered(ascii_uppered(direction_name(d)))) == Some(d),
{
    let l = ascii_lowered(s);
    assert forall|i: int| 0 <= i < l.len() implies (#[trigger] l[i] as int) < 128 by {
        assert((s[i] as int) < 128);
    }
    assert(ascii_lowered(l) =~= l);
    reveal_strlit("up");
    reveal_strlit("down");
    reveal_strlit("left");
    reveal_strlit("right");
    let n = direction_name(d);
    assert(all_ascii(n));
    let u = ascii_uppered(n);
    assert forall|i: int| 0 <= i < u.len() implies (#[trigger] u[i] as int) < 128 by {
        assert((n[i] as int) < 128);
    }
    assert(ascii_lowered(u) =~= n);
    lemma_direction_names_round_trip(d);
}

/// Reading back the name of a direction gives the same direction.
pub proof fn lemma_direction_names_round_trip(d: Direction)
    ensures
        direction_from_lower(direction_name(d)) == Some(d),
{
    reveal_strlit("up");
    reveal_strlit("down");
    reveal_strlit("left");
    reveal_strlit("right");
    assert("up"@.len() == 2);
    assert("down"@.len() == 4);
    assert("left"@.len() == 4);
    assert("right"@.len() == 5);
    assert("down"@[0] != "left"@[0]);
}

/// A food item.
#[derive(Debug, Clone, Copy, PartialEq, Eq, Structural)]
pub struct Food {
    pub position: Coordinate,
}

/// A snake on the grid; its id is a UUID held as an integer and `body[0]`
/// is its head.
#[derive(Debug)]
pub struct Snake {
    pub id: u128,
    pub body: Vec<Coordinate>,
    pub health: u32,
    pub is_alive: bool,
}

impl Snake {
    /// A living snake of length three on one cell, at full health.
    pub fn new(id: u128, starting_position: Coordinate) -> (s: Snake)
        ensures
            s.id == id,
            s.body@ == seq![starting_position, starting_position, starting_position],
            s.health == 100,
            s.is_alive,
    {
        let mut body: Vec<Coordinate> = Vec::new();
        body.push(starting_position);
        body.push(starting_position);
        body.push(starting_position);
        Snake { id, body, health: 100, is_alive: true }
    }

    pub fn get_head(&self) -> (h: &Coordinate)
        requires
            self.body@.len() > 0,
        ensures
            *h == self.body@[0],
    {
        &self.body[0]
    }

    pub fn get_next_head(&self, direction: Direction) -> (h: Coordinate)
        requires
            self.body@.len() > 0,
            direction == Direction::Up ==> self.body@[0].y < u32::MAX,
            direction == Direction::Right ==> self.body@[0].x < u32::MAX,
        ensures
            h == spec_apply_direction(self.body@[0], direction),
    {
        self.body[0].apply_direction(direction)
    }

    /// Moves the head to `new_head` and drops the tail.
    pub fn move_to(&mut self, new_head: Coordinate)
        ensures
            final(self).body@ == (seq![new_head] + old(self).body@).drop_last(),
            final(self).id == old(self).id,
            final(self).health == old(self).health,
            final(self).is_alive == old(self).is_alive,
    {
        self.body.insert(0, new_head);
        self.body.pop();
    }

    /// Moves the head to `new_head` and keeps the tail.
    pub fn grow(&mut self, new_head: Coordinate)
        ensures
            final(self).body@ == seq![new_head] + old(self).body@,
            final(self).id == old(self).id,
            final(self).health == old(self).health,
            final(self).is_alive == old(self).is_alive,
    {
        self.body.insert(0, new_head);
        assert(self.body@ =~= seq![new_head] + old(self).body@);
    }
}

/// The grid's size.
#[derive(Debug, Clone, Copy, PartialEq, Eq, Structural)]
pub struct Board {
    pub width: u32,
    pub height: u32,
}

impl Board {
    pub fn new(width: u32, height: u32) -> (b: Board)
        ensures
            b.width == width && b.height == height,
    {
        Board { width, height }
    }

    /// Whether the cell lies on the board.
    pub fn is_valid_position(&self, pos: &Coordinate) -> (r: bool)
        ensures
            r == (pos.x < self.width && pos.y < self.height),
    {
        pos.x < self.width && pos.y < self.height
    }
}

/// A whole game: the board, the snakes by id, the food and the turn.
#[derive(Debug)]
pub struct GameState {
    pub board: Board,
    pub snakes: HashMap<u128, Snake>,
    pub food: Vec<Food>,
    pub turn: u32,
}

/// The ids of the living snakes.
pub open spec fn alive_ids(m: Map<u128, Snake>) -> Set<u128> {
    m.dom().filter(|k: u128| m[k].is_alive)
}

/// The number of entries of `s` whose snake is alive.
pub open spec fn alive_entries(s: Seq<(&u128, &Snake)>) -> nat
    decreases s.len(),
{
    if s.len() == 0 {
        0
    } else {
        alive_entries(s.drop_last()) + if s.last().1.is_alive {
            1nat
        } else {
            0nat
        }
    }
}

/// The keys of a sequence of map entries.
pub open spec fn entry_keys(s: Seq<(&u128, &Snake)>) -> Seq<u128> {
    s.map_values(|p: (&u128, &Snake)| *p.0)
}

/// The entries of `s` are entries of `m`.
pub open spec fn entries_of(s: Seq<(&u128, &Snake)>, m: Map<u128, Snake>) -> bool {
    forall|i: int| 0 <= i < s.len() ==> m.contains_key(*s[i].0) && m[*s[i].0] == *(#[trigger] s[i]).1
}

proof fn lemma_alive_entries(s: Seq<(&u128, &Snake)>, m: Map<u128, Snake>)
    requires
        entries_of(s, m),
        entry_keys(s).no_duplicates(),
    ensures
        alive_entries(s) == entry_keys(s).to_set().filter(|k: u128| m[k].is_alive).len(),
    decreases s.len(),
{
    let ks = entry_keys(s);
    if s.len() == 0 {
        assert(ks.to_set().filter(|k: u128| m[k].is_alive) =~= Set::<u128>::empty());
    } else {
        let p = s.drop_last();
        let kp = entry_keys(p);
        assert(kp =~= ks.drop_last());
        assert(entries_of(p, m)) by {
            assert forall|i: int| 0 <= i < p.len() implies m.contains_key(*p[i].0) && m[*p[i].0]
                == *(#[trigger] p[i]).1 by {
                assert(p[i] == s[i]);
            }
        }
        assert(kp.no_duplicates());
        lemma_alive_entries(p, m);
        let last = ks.last();
        assert(ks =~= kp.push(last));
        kp.lemma_push_to_set_commute(last);
        assert(!kp.contains(last)) by {
            if kp.contains(last) {
                let j = choose|j: int| 0 <= j < kp.len() && kp[j] == last;
                assert(ks[j] == ks[ks.len() - 1]);
            }
        }
        let fp = kp.to_set().filter(|k: u128| m[k].is_alive);
        let fs = ks.to_set().filter(|k: u128| m[k].is_alive);
        assert(s.last().1.is_alive == m[last].is_alive);
        if m[last].is_alive {
            assert(fs =~= fp.insert(last));
            assert(!fp.contains(last));
        } else {
            assert(fs =~= fp);
        }
    }
}

/// The keys of the entries of `s` whose snake is alive, in order.
pub open spec fn alive_keys_in(s: Seq<(&u128, &Snake)>) -> Seq<u128>
    decreases s.len(),
{
    if s.len() == 0 {
        Seq::empty()
    } else if s.last().1.is_alive {
        alive_keys_in(s.drop_last()).push(*s.last().0)
    } else {
        alive_keys_in(s.drop_last())
    }
}

proof fn lemma_alive_keys_in(s: Seq<(&u128, &Snake)>, m: Map<u128, Snake>)
    requires
        entries_of(s, m),
        entry_keys(s).no_duplicates(),
    ensures
        alive_keys_in(s).no_duplicates(),
        alive_keys_in(s).to_set() == entry_keys(s).to_set().filter(|k: u128| m[k].is_alive),
    decreases s.len(),
{
    let ks = entry_keys(s);
    if s.len() == 0 {
        assert(ks.to_set().filter(|k: u128| m[k].is_alive) =~= Set::<u128>::empty());
        assert(alive_keys_in(s).to_set() =~= Set::<u128>::empty());
    } else {
        let p = s.drop_last();
        let kp = entry_keys(p);
        assert(kp =~= ks.drop_last());
        assert(entries_of(p, m)) by {
            assert forall|i: int| 0 <= i < p.len() implies m.contains_key(*p[i].0) && m[*p[i].0]
                == *(#[trigger] p[i]).1 by {
                assert(p[i] == s[i]);
            }
        }
        lemma_alive_keys_in(p, m);
        let last = ks.last();
        assert(ks =~= kp.push(last));
        kp.lemma_push_to_set_commute(last);
        assert(!kp.contains(last)) by {
            if kp.contains(last) {
                let j = choose|j: int| 0 <= j < kp.len() && kp[j] == last;
                assert(ks[j] == ks[ks.len() - 1]);
            }
        }
        let a = alive_keys_in(p);
        assert(s.last().1.is_alive == m[last].is_alive);
        if m[last].is_alive {
            a.lemma_push_to_set_commute(last);
            assert(!a.contains(last)) by {
                if a.contains(last) {
                    assert(a.to_set().contains(last));
                }
            }
            assert(alive_keys_in(s) == a.push(last));
            assert forall|i: int, j: int| 0 <= i < j < a.len() + 1 implies a.push(last)[i] != a.push(last)[j] by {
                if j == a.len() {
                    assert(a.contains(a[i]));
                }
            }
            assert(ks.to_set().filter(|k: u128| m[k].is_alive) =~= kp.to_set().filter(|k: u128| m[k].is_alive).insert(last));
        } else {
            assert(ks.to_set().filter(|k: u128| m[k].is_alive) =~= kp.to_set().filter(|k: u128| m[k].is_alive));
        }
    }
}

impl GameState {
    /// An empty game on a board of the given size, at turn zero.
    pub fn new(width: u32, height: u32) -> (r: GameState)
        ensures
            r.board == (Board { width, height }),
            r.snakes@ == Map::<u128, Snake>::empty(),
            r.food@.len() == 0,
            r.turn == 0,
    {
        GameState { board: Board::new(width, height), snakes: HashMap::new(), food: Vec::new(), turn: 0 }
    }

    /// The living snakes, each once, in the order the map is walked.
    pub fn get_alive_snakes(&self) -> (r: Vec<&Snake>)
        ensures
            exists|ks: Seq<u128>|
                {
                    &&& ks.no_duplicates()
                    &&& ks.to_set() == alive_ids(self.snakes@)
                    &&& ks.len() == r@.len()
                    &&& forall|i: int| 0 <= i < ks.len() ==> *r@[i] == self.snakes@[#[trigger] ks[i]]
                },
    {
        broadcast use vstd::std_specs::hash::group_hash_axioms;
        let ghost m = self.snakes@;
        let ghost whole = vstd::std_specs::hash::spec_hash_map_iter(&self.snakes).remaining();
        let _ = self.snakes.iter();
        proof {
            lemma_iteration_covers_map(&self.snakes);
        }
        let mut r: Vec<&Snake> = Vec::new();
        for (k, v) in it: self.snakes.iter()
            invariant
                m == self.snakes@,
                whole == vstd::std_specs::hash::spec_hash_map_iter(&self.snakes).remaining(),
                it.seq() == whole,
                entries_of(whole, m),
                r@.len() == alive_keys_in(whole.take(it.index())).len(),
                forall|j: int|
                    0 <= j < r@.len() ==> *r@[j] == m[#[trigger] alive_keys_in(
                        whole.take(it.index()),
                    )[j]],
        {
            let ghost i = it.index();
            assert(whole.take(i + 1).drop_last() =~= whole.take(i));
            assert(whole.take(i + 1).last() == whole[i]);
            if v.is_alive {
                r.push(v);
            }
        }
        proof {
            assert(whole.take(whole.len() as int) =~= whole);
            lemma_alive_keys_in(whole, m);
            assert(entry_keys(whole).to_set().filter(|k: u128| m[k].is_alive) =~= alive_ids(m));
            let ks = alive_keys_in(whole);
            assert(forall|i: int| 0 <= i < ks.len() ==> *r@[i] == m[#[trigger] ks[i]]);
        }
        r
    }

    /// How many snakes are alive.
    pub fn get_alive_snake_count(&self) -> (r: usize)
        ensures
            r == alive_ids(self.snakes@).len(),
    {
        broadcast use vstd::std_specs::hash::group_hash_axioms;
        let ghost m = self.snakes@;
        let ghost whole = vstd::std_specs::hash::spec_hash_map_iter(&self.snakes).remaining();
        let _ = self.snakes.iter();
        let n = self.snakes.len();
        proof {
            lemma_iteration_covers_map(&self.snakes);
            assert(m.dom().len() == n);
        }
        let mut count: usize = 0;
        for (k, v) in it: self.snakes.iter()
            invariant
                m == self.snakes@,
                whole == vstd::std_specs::hash::spec_hash_map_iter(&self.snakes).remaining(),
                it.seq() == whole,
                whole.len() <= usize::MAX,
                count == alive_entries(whole.take(it.index())),
                count <= it.index(),
        {
            let ghost i = it.index();
            assert(whole.take(i + 1).drop_last() =~= whole.take(i));
            if v.is_alive {
                count = count + 1;
            }
        }
        proof {
            assert(whole.take(whole.len() as int) =~= whole);
            lemma_alive_entries(whole, m);
            assert(entry_keys(whole).to_set().filter(|k: u128| m[k].is_alive) =~= alive_ids(m));
        }
        count
    }
}

/// Walking a map visits each of its entries exactly once.
pub(crate) proof fn lemma_iteration_covers_map(snakes: &HashMap<u128, Snake>)
    requires
        vstd::std_specs::hash::spec_hash_map_iter(snakes).remaining().no_duplicates(),
    ensures
        ({
            let whole = vstd::std_specs::hash::spec_hash_map_iter(snakes).remaining();
            &&& whole.len() == snakes@.dom().len()
            &&& entries_of(whole, snakes@)
            &&& entry_keys(whole).no_duplicates()
            &&& entry_keys(whole).to_set() == snakes@.dom()
        }),
{
    broadcast use vstd::std_specs::hash::group_hash_axioms;
    let m = snakes@;
    let whole = vstd::std_specs::hash::spec_hash_map_iter(snakes).remaining();
    let ks = entry_keys(whole);
    assert(entries_of(whole, m));
    assert forall|i: int, j: int| 0 <= i < j < ks.len() implies ks[i] != ks[j] by {
        if ks[i] == ks[j] {
            assert(whole[i] == whole[j]);
        }
    }
    assert forall|k: u128| ks.to_set().contains(k) <==> m.dom().contains(k) by {
        if m.dom().contains(k) {
            assert(whole.contains((&k, &m[k])));
            let i = choose|i: int| 0 <= i < whole.len() && whole[i] == (&k, &m[k]);
            assert(ks[i] == k);
        }
        if ks.to_set().contains(k) {
            let i = choose|i: int| 0 <= i < ks.len() && ks[i] == k;
            assert(m.contains_key(*whole[i].0));
        }
    }
    assert(ks.to_set() =~= m.dom());
}

} // verus!
