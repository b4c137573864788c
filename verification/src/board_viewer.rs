//! Frames in the shape the Battlesnake board viewer reads, and the colors
//! snakes are drawn with.

use vstd::prelude::*;
use vstd::std_specs::iter::IteratorSpec;
use vstd::string::{StrSliceExecFns, StringExecFns};

use crate::engine::game_state::{
    entries_of, entry_keys, lemma_iteration_covers_map, Coordinate, GameState, Snake,
};
use crate::ids::{uuid_string, uuid_text};
use crate::models::{GameBoardSize, GameStatus};
use std::collections::HashMap;

verus! {

/// A cell for the board viewer.
#[derive(Debug, Clone, Copy, PartialEq, Eq, Structural)]
pub struct BoardCoordinate {
    pub x: u32,
    pub y: u32,
}

/// How and when a snake was eliminated, for the board viewer.
#[derive(Debug, Clone)]
pub struct SnakeDeath {
    pub cause: String,
    pub turn: u32,
    pub eliminated_by: String,
}

/// A snake as the board viewer draws it.
#[derive(Debug, Clone)]
pub struct BoardSnake {
    pub id: String,
    pub name: String,
    pub body: Vec<BoardCoordinate>,
    pub health: u32,
    pub death: Option<SnakeDeath>,
    pub color: String,
    pub head_type: String,
    pub tail_type: String,
    pub latency: String,
    pub shout: String,
    pub author: String,
    pub is_bot: bool,
}

/// One turn as the board viewer shows it.
#[derive(Debug, Clone)]
pub struct FrameData {
    pub turn: u32,
    pub snakes: Vec<BoardSnake>,
    pub food: Vec<BoardCoordinate>,
    pub hazards: Vec<BoardCoordinate>,
}

/// The palette snakes are colored from, in order.
pub open spec fn snake_palette() -> Seq<Seq<char>> {
    seq![
        "#FF5733"@,
        "#33FF57"@,
        "#3357FF"@,
        "#FF33F5"@,
        "#F5FF33"@,
        "#33FFF5"@,
        "#FF8C33"@,
        "#8C33FF"@,
    ]
}

/// The color for the snake at position `index` in its game: the palette
/// taken in turn, starting over after the last color.
pub fn get_snake_color(index: usize) -> (r: String)
    ensures
        r@ == snake_palette()[(index % 8) as int],
{
    let c = match index % 8 {
        0 => "#FF5733",
        1 => "#33FF57",
        2 => "#3357FF",
        3 => "#FF33F5",
        4 => "#F5FF33",
        5 => "#33FFF5",
        6 => "#FF8C33",
        _ => "#8C33FF",
    };
    String::from_str(c)
}

/// Snakes eight places apart share a color.
pub proof fn lemma_snake_colors_repeat(index: usize)
    requires
        index + 8 <= usize::MAX,
    ensures
        snake_palette()[((index + 8) % 8) as int] == snake_palette()[(index % 8) as int],
{
}

/// A cell in the board viewer's form.
pub open spec fn board_coord(c: Coordinate) -> BoardCoordinate {
    BoardCoordinate { x: c.x, y: c.y }
}

/// The colour a snake is drawn with: its assigned colour, or grey.
pub open spec fn color_for(colors: Map<u128, String>, id: u128) -> Seq<char> {
    if colors.contains_key(id) {
        colors[id]@
    } else {
        "#888888"@
    }
}

/// `b` shows the snake `s` with id `id` at turn `turn`: named after the
/// first eight digits of its id, with its body and health, dead snakes
/// marked as lost to a collision on this turn, drawn as a bot with the
/// default head and tail.
pub open spec fn board_snake_ok(
    b: BoardSnake,
    id: u128,
    s: Snake,
    colors: Map<u128, String>,
    turn: u32,
) -> bool {
    &&& b.id@ == uuid_text(id)
    &&& b.name@ == "Snake "@ + uuid_text(id).subrange(0, 8)
    &&& b.body@.len() == s.body@.len()
    &&& forall|k: int| 0 <= k < s.body@.len() ==> b.body@[k] == board_coord(#[trigger] s.body@[k])
    &&& b.health == s.health
    &&& if s.is_alive {
        b.death is None
    } else {
        b.death matches Some(d) && d.cause@ == "collision"@ && d.turn == turn
            && d.eliminated_by@.len() == 0
    }
    &&& b.color@ == color_for(colors, id)
    &&& b.head_type@ == "default"@
    &&& b.tail_type@ == "default"@
    &&& b.latency@ == "0"@
    &&& b.shout@.len() == 0
    &&& b.author@.len() == 0
    &&& b.is_bot
}

/// The board viewer's form of one snake.
fn board_snake(id: u128, s: &Snake, colors: &HashMap<u128, String>, turn: u32) -> (b: BoardSnake)
    ensures
        board_snake_ok(b, id, *s, colors@, turn),
{
    broadcast use vstd::std_specs::hash::group_hash_axioms;
    let color = match colors.get(&id) {
        Some(c) => c.clone(),
        None => String::from_str("#888888"),
    };
    let text = uuid_string(id);
    let mut name = String::from_str("Snake ");
    name.append(text.as_str().substring_char(0, 8));
    let mut body: Vec<BoardCoordinate> = Vec::new();
    let n = s.body.len();
    let mut i: usize = 0;
    while i < n
        invariant
            n == s.body@.len(),
            i <= n,
            body@.len() == i,
            forall|k: int| 0 <= k < i ==> body@[k] == board_coord(#[trigger] s.body@[k]),
        decreases n - i,
    {
        body.push(BoardCoordinate { x: s.body[i].x, y: s.body[i].y });
        i = i + 1;
    }
    let death = if s.is_alive {
        None
    } else {
        Some(SnakeDeath { cause: String::from_str("collision"), turn, eliminated_by: String::new() })
    };
    BoardSnake {
        id: text,
        name,
        body,
        health: s.health,
        death,
        color,
        head_type: String::from_str("default"),
        tail_type: String::from_str("default"),
        latency: String::from_str("0"),
        shout: String::new(),
        author: String::new(),
        is_bot: true,
    }
}

/// The frame the board viewer shows for a game state: every snake once (in
/// the order the map is walked), the food in order, and no hazards.
pub fn game_state_to_frame(state: &GameState, snake_colors: &HashMap<u128, String>) -> (f: FrameData)
    ensures
        f.turn == state.turn,
        exists|ks: Seq<u128>|
            {
                &&& ks.no_duplicates()
                &&& ks.to_set() == state.snakes@.dom()
                &&& ks.len() == f.snakes@.len()
                &&& forall|i: int|
                    0 <= i < ks.len() ==> board_snake_ok(
                        #[trigger] f.snakes@[i],
                        ks[i],
                        state.snakes@[ks[i]],
                        snake_colors@,
                        state.turn,
                    )
            },
        f.food@.len() == state.food@.len(),
        forall|k: int|
            0 <= k < state.food@.len() ==> f.food@[k] == board_coord(
                (#[trigger] state.food@[k]).position,
            ),
        f.hazards@.len() == 0,
{
    broadcast use vstd::std_specs::hash::group_hash_axioms;
    let ghost m = state.snakes@;
    let ghost whole = vstd::std_specs::hash::spec_hash_map_iter(&state.snakes).remaining();
    let _ = state.snakes.iter();
    proof {
        lemma_iteration_covers_map(&state.snakes);
    }
    let mut snakes: Vec<BoardSnake> = Vec::new();
    for (k, v) in it: state.snakes.iter()
        invariant
            m == state.snakes@,
            whole == vstd::std_specs::hash::spec_hash_map_iter(&state.snakes).remaining(),
            it.seq() == whole,
            snakes@.len() == it.index(),
            forall|j: int|
                0 <= j < it.index() ==> board_snake_ok(
                    #[trigger] snakes@[j],
                    *whole[j].0,
                    *whole[j].1,
                    snake_colors@,
                    state.turn,
                ),
    {
        snakes.push(board_snake(*k, v, snake_colors, state.turn));
    }
    let mut food: Vec<BoardCoordinate> = Vec::new();
    let n = state.food.len();
    let mut i: usize = 0;
    while i < n
        invariant
            n == state.food@.len(),
            i <= n,
            food@.len() == i,
            forall|k: int| 0 <= k < i ==> food@[k] == board_coord((#[trigger] state.food@[k]).position),
        decreases n - i,
    {
        food.push(BoardCoordinate { x: state.food[i].position.x, y: state.food[i].position.y });
        i = i + 1;
    }
    proof {
        let ks = entry_keys(whole);
        assert forall|i: int| 0 <= i < ks.len() implies board_snake_ok(
            #[trigger] snakes@[i],
            ks[i],
            m[ks[i]],
            snake_colors@,
            state.turn,
        ) by {
            assert(ks[i] == *whole[i].0);
            assert(m[*whole[i].0] == *whole[i].1);
        }
    }
    FrameData { turn: state.turn, snakes, food, hazards: Vec::new() }
}

/// A game's board size as the board viewer asks for it.
#[derive(Debug, Clone, Copy, PartialEq, Eq, Structural)]
pub struct BoardViewerGame {
    pub width: u32,
    pub height: u32,
}

/// The board viewer's game information.
#[derive(Debug, Clone, Copy, PartialEq, Eq, Structural)]
pub struct BoardViewerGameResponse {
    pub game: BoardViewerGame,
}

/// The game information for a board size.
pub fn game_info(board_size: GameBoardSize) -> (r: BoardViewerGameResponse)
    ensures
        (r.game.width, r.game.height) == match board_size {
            GameBoardSize::Small => (7u32, 7u32),
            GameBoardSize::Medium => (11u32, 11u32),
            GameBoardSize::Large => (19u32, 19u32),
        },
{
    let (width, height) = board_size.dimensions();
    BoardViewerGameResponse { game: BoardViewerGame { width, height } }
}

/// The status name the board viewer expects; a finished game is
/// "complete".
pub fn viewer_status(status: GameStatus) -> (r: &'static str)
    ensures
        r@ == match status {
            GameStatus::Waiting => "waiting"@,
            GameStatus::Running => "running"@,
            GameStatus::Finished => "complete"@,
        },
{
    match status {
        GameStatus::Waiting => "waiting",
        GameStatus::Running => "running",
        GameStatus::Finished => "complete",
    }
}

} // verus!
