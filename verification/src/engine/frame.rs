//! Frames for the board viewer: a snapshot of the board with each snake's
//! colour, latency, shout and death.

use vstd::prelude::*;
use vstd::string::StringSliceAdditionalSpecFns;

use super::wire::{BattleSnake, Game, Position};
use crate::ids::hex_char;
use crate::snake_client::MoveResult;
use crate::text::{owned, push_char, signed_decimal, signed_string};

verus! {

/// How and when a snake died.
#[derive(Debug)]
pub struct DeathInfo {
    pub snake_id: String,
    pub turn: i32,
    pub cause: String,
    pub eliminated_by: String,
}

impl Clone for DeathInfo {
    fn clone(&self) -> (r: DeathInfo)
        ensures
            r == *self,
    {
        DeathInfo {
            snake_id: self.snake_id.clone(),
            turn: self.turn,
            cause: self.cause.clone(),
            eliminated_by: self.eliminated_by.clone(),
        }
    }
}

/// A board cell in frame form.
#[derive(Debug, Clone, Copy, PartialEq, Eq, Structural)]
pub struct FrameCoord {
    pub x: i32,
    pub y: i32,
}

impl FrameCoord {
    pub fn from_position(p: Position) -> (r: FrameCoord)
        ensures
            r.x == p.x && r.y == p.y,
    {
        FrameCoord { x: p.x, y: p.y }
    }
}

/// A death in frame form.
#[derive(Debug)]
pub struct FrameDeath {
    pub cause: String,
    pub turn: i32,
    pub eliminated_by: String,
}

/// A snake in frame form.
#[derive(Debug)]
pub struct FrameSnake {
    pub id: String,
    pub name: String,
    pub body: Vec<FrameCoord>,
    pub health: i32,
    pub color: String,
    pub head_type: String,
    pub tail_type: String,
    pub latency: String,
    pub shout: String,
    pub squad: String,
    pub api_version: String,
    pub author: String,
    pub death: Option<FrameDeath>,
    pub eliminated_cause: String,
    pub eliminated_by: String,
}

/// A frame: the turn, the snakes, the food and the hazards.
#[derive(Debug)]
pub struct EngineGameFrame {
    pub turn: i32,
    pub snakes: Vec<FrameSnake>,
    pub food: Vec<FrameCoord>,
    pub hazards: Vec<FrameCoord>,
}

// ---------------------------------------------------------------------------
// Snake colours
// ---------------------------------------------------------------------------

/// Hash of the id's UTF-8 bytes: `acc * 31 + byte`, wrapping on `u32`.
pub open spec fn color_hash(bytes: Seq<u8>) -> nat
    decreases bytes.len(),
{
    if bytes.len() == 0 {
        0
    } else {
        ((color_hash(bytes.drop_last()) * 31 + bytes.last()) % 0x1_0000_0000) as nat
    }
}

/// A colour channel rising from 38 to 216 over a sixty-degree segment: the
/// lightness-one-half, saturation-0.7 HSL conversion scaled to 0..255.
pub open spec fn channel_ramp(t: int) -> int {
    (1530 + 119 * t) / 40
}

/// Hues at which the single-precision computation of the rising or falling
/// channel lands just below the exact integer value it has on paper.
pub open spec fn rounds_below(hue: int) -> bool {
    hue == 110 || hue == 170 || hue == 190 || hue == 250 || hue == 350
}

/// Red, green and blue for a hue in degrees.
pub open spec fn hue_rgb(hue: int) -> (int, int, int) {
    let seg = hue / 60;
    let k = hue % 60;
    let adj = if rounds_below(hue) {
        1int
    } else {
        0int
    };
    let up = channel_ramp(k) - adj;
    let down = channel_ramp(60 - k) - adj;
    if seg == 0 {
        (216, up, 38)
    } else if seg == 1 {
        (down, 216, 38)
    } else if seg == 2 {
        (38, 216, up)
    } else if seg == 3 {
        (38, down, 216)
    } else if seg == 4 {
        (up, 38, 216)
    } else {
        (216, 38, down)
    }
}

/// Two lowercase hexadecimal digits.
pub open spec fn hex2(v: int) -> Seq<char> {
    seq![hex_char(v / 16), hex_char(v % 16)]
}

/// The colour of a snake: `#rrggbb` for the hue `color_hash(id) % 360`.
pub open spec fn snake_color(id: Seq<u8>) -> Seq<char> {
    let rgb = hue_rgb((color_hash(id) % 360) as int);
    seq!['#'] + hex2(rgb.0) + hex2(rgb.1) + hex2(rgb.2)
}

/// Whether a character is a lowercase hexadecimal digit.
pub open spec fn is_lower_hex(c: char) -> bool {
    ('0' <= c <= '9') || ('a' <= c <= 'f')
}

/// Every snake colour is `#` followed by six lowercase hexadecimal digits.
pub proof fn lemma_snake_color_shape(id: Seq<u8>)
    ensures
        snake_color(id).len() == 7,
        snake_color(id)[0] == '#',
        forall|k: int| 1 <= k < 7 ==> is_lower_hex(#[trigger] snake_color(id)[k]),
{
    let hue = (color_hash(id) % 360) as int;
    let rgb = hue_rgb(hue);
    assert(0 <= rgb.0 < 256 && 0 <= rgb.1 < 256 && 0 <= rgb.2 < 256) by {
        let k = hue % 60;
        assert(0 <= channel_ramp(k) <= 216) by (nonlinear_arith)
            requires
                0 <= k < 60,
        ;
        assert(0 <= channel_ramp(60 - k) <= 216) by (nonlinear_arith)
            requires
                0 <= k < 60,
        ;
    }
    let c = snake_color(id);
    assert forall|k: int| 1 <= k < 7 implies is_lower_hex(#[trigger] c[k]) by {
        let v = if k < 3 {
            rgb.0
        } else if k < 5 {
            rgb.1
        } else {
            rgb.2
        };
        assert(0 <= v / 16 < 16 && 0 <= v % 16 < 16);
        crate::ids::lemma_hex_char_lower(v / 16);
        crate::ids::lemma_hex_char_lower(v % 16);
    }
}

fn ramp(t: u32) -> (r: u32)
    requires
        t <= 60,
    ensures
        r as int == channel_ramp(t as int),
{
    (1530 + 119 * t) / 40
}

fn push_hex2(s: &mut String, v: u32)
    requires
        v < 256,
    ensures
        final(s)@ == old(s)@ + hex2(v as int),
{
    let hi = crate::ids::hex_digit((v / 16) as u8);
    let lo = crate::ids::hex_digit((v % 16) as u8);
    let ghost start = s@;
    push_char(s, hi);
    push_char(s, lo);
    assert(s@ =~= start + hex2(v as int));
}

/// Generates a consistent colour for a snake from its id.
pub fn generate_snake_color(id: &str) -> (r: String)
    ensures
        r@ == snake_color(id.spec_bytes()),
{
    let bytes = id.as_bytes();
    let n = bytes.len();
    let mut hash: u32 = 0;
    let mut i: usize = 0;
    while i < n
        invariant
            n == bytes@.len(),
            bytes@ == id.spec_bytes(),
            i <= n,
            hash as nat == color_hash(bytes@.subrange(0, i as int)),
        decreases n - i,
    {
        assert(bytes@.subrange(0, i + 1).drop_last() =~= bytes@.subrange(0, i as int));
        hash = ((hash as u64 * 31 + bytes[i] as u64) % 0x1_0000_0000u64) as u32;
        i = i + 1;
    }
    assert(bytes@.subrange(0, n as int) =~= bytes@);
    let hue = hash % 360;
    let seg = hue / 60;
    let k = hue % 60;
    let adj: u32 = if hue == 110 || hue == 170 || hue == 190 || hue == 250 || hue == 350 {
        1
    } else {
        0
    };
    let up = ramp(k) - adj;
    let down = ramp(60 - k) - adj;
    let (r, g, b): (u32, u32, u32) = if seg == 0 {
        (216, up, 38)
    } else if seg == 1 {
        (down, 216, 38)
    } else if seg == 2 {
        (38, 216, up)
    } else if seg == 3 {
        (38, down, 216)
    } else if seg == 4 {
        (up, 38, 216)
    } else {
        (216, 38, down)
    };
    let mut s = owned("#");
    proof {
        reveal_strlit("#");
    }
    push_hex2(&mut s, r);
    push_hex2(&mut s, g);
    push_hex2(&mut s, b);
    assert(s@ =~= snake_color(id.spec_bytes()));
    s
}

} // verus!

verus! {

pub open spec fn is_first_death(ds: Seq<DeathInfo>, id: Seq<char>, k: int) -> bool {
    &&& 0 <= k < ds.len()
    &&& ds[k].snake_id@ == id
    &&& forall|j: int| 0 <= j < k ==> ds[j].snake_id@ != id
}

/// The first recorded death of snake `id`.
pub open spec fn death_for(ds: Seq<DeathInfo>, id: Seq<char>) -> Option<DeathInfo> {
    if exists|k: int| is_first_death(ds, id, k) {
        Some(ds[choose|k: int| is_first_death(ds, id, k)])
    } else {
        None
    }
}

pub open spec fn is_first_result(rs: Seq<MoveResult>, id: Seq<char>, k: int) -> bool {
    &&& 0 <= k < rs.len()
    &&& rs[k].snake_id@ == id
    &&& forall|j: int| 0 <= j < k ==> rs[j].snake_id@ != id
}

/// The first move result for snake `id`.
pub open spec fn result_for(rs: Seq<MoveResult>, id: Seq<char>) -> Option<MoveResult> {
    if exists|k: int| is_first_result(rs, id, k) {
        Some(rs[choose|k: int| is_first_result(rs, id, k)])
    } else {
        None
    }
}

/// Latency shown for a snake: "timeout", the milliseconds, or "0".
pub open spec fn latency_text(r: Option<MoveResult>) -> Seq<char> {
    match r {
        None => "0"@,
        Some(m) => if m.timed_out {
            "timeout"@
        } else {
            match m.latency_ms {
                Some(ms) => signed_decimal(ms as int),
                None => "0"@,
            }
        },
    }
}

/// Shout shown for a snake: from its move result, else its own, else empty.
pub open spec fn shout_text(r: Option<MoveResult>, s: BattleSnake) -> Seq<char> {
    if r is Some && r->0.shout is Some {
        r->0.shout->0@
    } else {
        match s.shout {
            Some(t) => t@,
            None => ""@,
        }
    }
}

pub open spec fn coords_of(v: Seq<Position>, c: Seq<FrameCoord>) -> bool {
    &&& c.len() == v.len()
    &&& forall|i: int| 0 <= i < v.len() ==> #[trigger] c[i].x == v[i].x && c[i].y == v[i].y
}

/// `f` is snake `s` in frame form.
pub open spec fn frame_snake_ok(f: FrameSnake, s: BattleSnake, ds: Seq<DeathInfo>, rs: Seq<MoveResult>) -> bool {
    let d = death_for(ds, s.id@);
    let r = result_for(rs, s.id@);
    &&& f.id@ == s.id@
    &&& f.name@ == s.name@
    &&& coords_of(s.body@, f.body@)
    &&& f.health == s.health
    &&& f.color@ == snake_color(vstd::utf8::encode_utf8(s.id@))
    &&& f.head_type@ == "default"@
    &&& f.tail_type@ == "default"@
    &&& f.latency@ == latency_text(r)
    &&& f.shout@ == shout_text(r, s)
    &&& f.squad@ == ""@
    &&& f.api_version@ == "1"@
    &&& f.author@ == ""@
    &&& match d {
        Some(di) => f.death matches Some(fd) && fd.cause@ == di.cause@ && fd.turn == di.turn
            && fd.eliminated_by@ == di.eliminated_by@,
        None => f.death is None,
    }
    &&& if s.health <= 0 && d is Some {
        f.eliminated_cause@ == d->0.cause@ && f.eliminated_by@ == d->0.eliminated_by@
    } else {
        f.eliminated_cause@ == ""@ && f.eliminated_by@ == ""@
    }
}

/// `f` is the frame of `game`.
pub open spec fn frame_ok(f: EngineGameFrame, game: Game, ds: Seq<DeathInfo>, rs: Seq<MoveResult>) -> bool {
    &&& f.turn == game.turn
    &&& f.snakes@.len() == game.board.snakes@.len()
    &&& forall|i: int|
        0 <= i < f.snakes@.len() ==> frame_snake_ok(#[trigger] f.snakes@[i], game.board.snakes@[i], ds, rs)
    &&& coords_of(game.board.food@, f.food@)
    &&& coords_of(game.board.hazards@, f.hazards@)
}

fn find_death(ds: &[DeathInfo], id: &String) -> (r: Option<usize>)
    ensures
        r is None <==> !exists|k: int| is_first_death(ds@, id@, k),
        r matches Some(k) ==> is_first_death(ds@, id@, k as int) && death_for(ds@, id@) == Some(ds@[k as int]),
{
    let n = ds.len();
    let mut k: usize = 0;
    while k < n
        invariant
            n == ds@.len(),
            k <= n,
            forall|j: int| 0 <= j < k ==> ds@[j].snake_id@ != id@,
        decreases n - k,
    {
        if ds[k].snake_id == *id {
            assert(is_first_death(ds@, id@, k as int));
            proof {
                let c = choose|c: int| is_first_death(ds@, id@, c);
                assert(c == k) by {
                    if c > k {
                        assert(ds@[k as int].snake_id@ == id@);
                    }
                }
            }
            return Some(k);
        }
        k = k + 1;
    }
    None
}

fn find_result(rs: &[MoveResult], id: &String) -> (r: Option<usize>)
    ensures
        r is None <==> !exists|k: int| is_first_result(rs@, id@, k),
        r matches Some(k) ==> is_first_result(rs@, id@, k as int) && result_for(rs@, id@) == Some(rs@[k as int]),
{
    let n = rs.len();
    let mut k: usize = 0;
    while k < n
        invariant
            n == rs@.len(),
            k <= n,
            forall|j: int| 0 <= j < k ==> rs@[j].snake_id@ != id@,
        decreases n - k,
    {
        if rs[k].snake_id == *id {
            assert(is_first_result(rs@, id@, k as int));
            proof {
                let c = choose|c: int| is_first_result(rs@, id@, c);
                assert(c == k) by {
                    if c > k {
                        assert(rs@[k as int].snake_id@ == id@);
                    }
                }
            }
            return Some(k);
        }
        k = k + 1;
    }
    None
}

fn positions_to_coords(v: &Vec<Position>) -> (c: Vec<FrameCoord>)
    ensures
        coords_of(v@, c@),
{
    let mut c: Vec<FrameCoord> = Vec::new();
    let n = v.len();
    let mut i: usize = 0;
    while i < n
        invariant
            n == v@.len(),
            i <= n,
            c@.len() == i,
            forall|k: int| 0 <= k < i ==> #[trigger] c@[k].x == v@[k].x && c@[k].y == v@[k].y,
        decreases n - i,
    {
        c.push(FrameCoord::from_position(v[i]));
        i = i + 1;
    }
    c
}

/// Converts a snake body to frame coordinates.
pub fn body_to_coords(body: &std::collections::VecDeque<Position>) -> (c: Vec<FrameCoord>)
    ensures
        coords_of(body@, c@),
{
    let mut c: Vec<FrameCoord> = Vec::new();
    let n = body.len();
    let mut i: usize = 0;
    while i < n
        invariant
            n == body@.len(),
            i <= n,
            c@.len() == i,
            forall|k: int| 0 <= k < i ==> #[trigger] c@[k].x == body@[k].x && c@[k].y == body@[k].y,
        decreases n - i,
    {
        c.push(FrameCoord::from_position(body[i]));
        i = i + 1;
    }
    c
}

fn frame_snake(s: &BattleSnake, death_info: &[DeathInfo], move_results: &[MoveResult]) -> (f: FrameSnake)
    ensures
        frame_snake_ok(f, *s, death_info@, move_results@),
{
    let di = find_death(death_info, &s.id);
    let death = match di {
        Some(k) => Some(
            FrameDeath {
                cause: death_info[k].cause.clone(),
                turn: death_info[k].turn,
                eliminated_by: death_info[k].eliminated_by.clone(),
            },
        ),
        None => None,
    };
    let (eliminated_cause, eliminated_by) = if s.health <= 0 {
        match di {
            Some(k) => (death_info[k].cause.clone(), death_info[k].eliminated_by.clone()),
            None => (String::new(), String::new()),
        }
    } else {
        (String::new(), String::new())
    };
    let ri = find_result(move_results, &s.id);
    proof {
        reveal_strlit("0");
        reveal_strlit("timeout");
    }
    let latency = match ri {
        Some(k) => if move_results[k].timed_out {
            owned("timeout")
        } else {
            match move_results[k].latency_ms {
                Some(ms) => signed_string(ms),
                None => owned("0"),
            }
        },
        None => owned("0"),
    };
    let shout = match ri {
        Some(k) => match &move_results[k].shout {
            Some(t) => t.clone(),
            None => match &s.shout {
                Some(t) => t.clone(),
                None => String::new(),
            },
        },
        None => match &s.shout {
            Some(t) => t.clone(),
            None => String::new(),
        },
    };
    proof {
        reveal_strlit("");
    }
    let color = generate_snake_color(s.id.as_str());
    let f = FrameSnake {
        id: s.id.clone(),
        name: s.name.clone(),
        body: body_to_coords(&s.body),
        health: s.health,
        color,
        head_type: owned("default"),
        tail_type: owned("default"),
        latency,
        shout,
        squad: owned(""),
        api_version: owned("1"),
        author: owned(""),
        death,
        eliminated_cause,
        eliminated_by,
    };
    let ghost d = death_for(death_info@, s.id@);
    let ghost r = result_for(move_results@, s.id@);
    assert(f.color@ == snake_color(vstd::utf8::encode_utf8(s.id@)));
    assert(f.latency@ == latency_text(r));
    assert(f.shout@ == shout_text(r, *s));
    assert(match d {
        Some(di) => f.death matches Some(fd) && fd.cause@ == di.cause@ && fd.turn == di.turn
            && fd.eliminated_by@ == di.eliminated_by@,
        None => f.death is None,
    });
    assert(if s.health <= 0 && d is Some {
        f.eliminated_cause@ == d->0.cause@ && f.eliminated_by@ == d->0.eliminated_by@
    } else {
        f.eliminated_cause@ == ""@ && f.eliminated_by@ == ""@
    });
    f
}

/// Converts a game state to a board viewer frame, with each snake's death
/// (the first recorded for its id) and the latency and shout from its move
/// result (the first for its id).
pub fn game_to_frame(game: &Game, death_info: &[DeathInfo], move_results: &[MoveResult]) -> (f: EngineGameFrame)
    ensures
        frame_ok(f, *game, death_info@, move_results@),
{
    let mut snakes: Vec<FrameSnake> = Vec::new();
    let n = game.board.snakes.len();
    let mut i: usize = 0;
    while i < n
        invariant
            n == game.board.snakes@.len(),
            i <= n,
            snakes@.len() == i,
            forall|k: int|
                0 <= k < i ==> frame_snake_ok(#[trigger] snakes@[k], game.board.snakes@[k], death_info@, move_results@),
        decreases n - i,
    {
        let fs = frame_snake(&game.board.snakes[i], death_info, move_results);
        snakes.push(fs);
        i = i + 1;
    }
    EngineGameFrame {
        turn: game.turn,
        snakes,
        food: positions_to_coords(&game.board.food),
        hazards: positions_to_coords(&game.board.hazards),
    }
}

} // verus!
