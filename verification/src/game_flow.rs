//! The game creation flow: the settings and the battlesnakes picked so far
//! while a user sets up a game. The same battlesnake may be picked more than
//! once; at most four picks are kept.

use vstd::prelude::*;
use vstd::string::StrSliceExecFns;

use crate::models::{board_size_from_name, game_type_from_name, GameBoardSize, GameType};

verus! {

/// The most battlesnakes a game can be set up with.
pub const MAX_SELECTED: usize = 4;

/// A request to create a game with the given battlesnakes.
#[derive(Debug, Clone)]
pub struct CreateGameWithSnakes {
    pub board_size: GameBoardSize,
    pub game_type: GameType,
    pub battlesnake_ids: Vec<u128>,
}

/// Why a flow cannot become a game yet.
#[derive(Debug, Clone, Copy, PartialEq, Eq, Structural)]
pub enum FlowError {
    NoSnakes,
    TooManySnakes,
}

impl FlowError {
    /// The message shown to the user.
    pub fn message(&self) -> (r: &'static str)
        ensures
            r@ == match *self {
                FlowError::NoSnakes => "At least one battlesnake is required"@,
                FlowError::TooManySnakes => "Maximum of 4 battlesnakes allowed"@,
            },
    {
        match self {
            FlowError::NoSnakes => "At least one battlesnake is required",
            FlowError::TooManySnakes => "Maximum of 4 battlesnakes allowed",
        }
    }
}

/// A user's game set-up in progress. Ids are UUIDs held as integers; times
/// are microseconds since the Unix epoch.
#[derive(Debug, Clone)]
pub struct GameCreationFlow {
    pub flow_id: u128,
    pub board_size: GameBoardSize,
    pub game_type: GameType,
    pub selected_battlesnake_ids: Vec<u128>,
    pub search_query: Option<String>,
    pub user_id: u128,
    pub created_at: i64,
    pub updated_at: i64,
}

/// How many times `id` occurs in `s`.
pub open spec fn occurrences(s: Seq<u128>, id: u128) -> nat
    decreases s.len(),
{
    if s.len() == 0 {
        0
    } else {
        occurrences(s.drop_last(), id) + if s.last() == id {
            1nat
        } else {
            0nat
        }
    }
}

/// The index of the last occurrence of `id` in `s`, or -1.
pub open spec fn last_index_of(s: Seq<u128>, id: u128) -> int
    decreases s.len(),
{
    if s.len() == 0 {
        -1
    } else if s.last() == id {
        s.len() - 1
    } else {
        last_index_of(s.drop_last(), id)
    }
}

/// The selection after picking `id`: added at the end while fewer than four
/// are picked, unchanged otherwise.
pub open spec fn selection_after_add(s: Seq<u128>, id: u128) -> Seq<u128> {
    if s.len() < 4 {
        s.push(id)
    } else {
        s
    }
}

/// The selection after dropping one pick of `id`: its last occurrence goes.
pub open spec fn selection_after_remove(s: Seq<u128>, id: u128) -> Seq<u128> {
    if last_index_of(s, id) >= 0 {
        s.remove(last_index_of(s, id))
    } else {
        s
    }
}

/// Whether a selection can be turned into a game: one to four picks.
pub open spec fn selection_valid(s: Seq<u128>) -> bool {
    1 <= s.len() <= 4
}

proof fn lemma_last_index_bounds(s: Seq<u128>, id: u128)
    ensures
        -1 <= last_index_of(s, id) < s.len(),
        last_index_of(s, id) >= 0 ==> s[last_index_of(s, id)] == id,
        last_index_of(s, id) >= 0 <==> s.contains(id),
        forall|j: int| last_index_of(s, id) < j < s.len() ==> s[j] != id,
    decreases s.len(),
{
    if s.len() > 0 {
        lemma_last_index_bounds(s.drop_last(), id);
        if s.last() != id {
            assert forall|j: int| last_index_of(s, id) < j < s.len() implies s[j] != id by {
                if j < s.len() - 1 {
                    assert(s[j] == s.drop_last()[j]);
                }
            }
            if s.drop_last().contains(id) {
                let j = choose|j: int| 0 <= j < s.drop_last().len() && s.drop_last()[j] == id;
                assert(s[j] == id);
            }
            if s.contains(id) {
                let j = choose|j: int| 0 <= j < s.len() && s[j] == id;
                assert(s.drop_last()[j] == id);
            }
        } else {
            assert(s[s.len() - 1] == id);
        }
    }
}

proof fn lemma_occurrences_push(s: Seq<u128>, x: u128, id: u128)
    ensures
        occurrences(s.push(x), id) == occurrences(s, id) + if x == id {
            1nat
        } else {
            0nat
        },
{
    assert(s.push(x).drop_last() =~= s);
}

proof fn lemma_occurrences_remove(s: Seq<u128>, k: int, id: u128)
    requires
        0 <= k < s.len(),
    ensures
        occurrences(s, id) == occurrences(s.remove(k), id) + if s[k] == id {
            1nat
        } else {
            0nat
        },
    decreases s.len(),
{
    if k < s.len() - 1 {
        lemma_occurrences_remove(s.drop_last(), k, id);
        assert(s.remove(k).drop_last() =~= s.drop_last().remove(k));
        assert(s.remove(k).last() == s.last());
    } else {
        assert(s.remove(k) =~= s.drop_last());
    }
}

proof fn lemma_occurrences_contains(s: Seq<u128>, id: u128)
    ensures
        occurrences(s, id) > 0 <==> s.contains(id),
    decreases s.len(),
{
    if s.len() > 0 {
        lemma_occurrences_contains(s.drop_last(), id);
        if s.contains(id) && s.last() != id {
            let j = choose|j: int| 0 <= j < s.len() && s[j] == id;
            assert(s.drop_last()[j] == id);
        }
        if s.drop_last().contains(id) {
            let j = choose|j: int| 0 <= j < s.drop_last().len() && s.drop_last()[j] == id;
            assert(s[j] == id);
        }
    }
}

impl GameCreationFlow {
    /// Picks a battlesnake (the same one may be picked again) while fewer
    /// than four are picked; says whether it was added.
    pub fn add_battlesnake(&mut self, battlesnake_id: u128) -> (added: bool)
        ensures
            added == (old(self).selected_battlesnake_ids@.len() < 4),
            final(self).selected_battlesnake_ids@ == selection_after_add(
                old(self).selected_battlesnake_ids@,
                battlesnake_id,
            ),
            final(self).flow_id == old(self).flow_id,
            final(self).board_size == old(self).board_size,
            final(self).game_type == old(self).game_type,
            final(self).search_query == old(self).search_query,
            final(self).user_id == old(self).user_id,
            final(self).created_at == old(self).created_at,
            final(self).updated_at == old(self).updated_at,
    {
        if self.selected_battlesnake_ids.len() < MAX_SELECTED {
            self.selected_battlesnake_ids.push(battlesnake_id);
            true
        } else {
            false
        }
    }

    /// Drops the last pick of a battlesnake; says whether it was picked.
    pub fn remove_battlesnake(&mut self, battlesnake_id: u128) -> (removed: bool)
        ensures
            removed == old(self).selected_battlesnake_ids@.contains(battlesnake_id),
            final(self).selected_battlesnake_ids@ == selection_after_remove(
                old(self).selected_battlesnake_ids@,
                battlesnake_id,
            ),
            final(self).flow_id == old(self).flow_id,
            final(self).board_size == old(self).board_size,
            final(self).game_type == old(self).game_type,
            final(self).search_query == old(self).search_query,
            final(self).user_id == old(self).user_id,
            final(self).created_at == old(self).created_at,
            final(self).updated_at == old(self).updated_at,
    {
        let ghost s = self.selected_battlesnake_ids@;
        proof {
            lemma_last_index_bounds(s, battlesnake_id);
        }
        let n = self.selected_battlesnake_ids.len();
        let mut k: usize = n;
        assert(s.subrange(0, n as int) =~= s);
        while k > 0 && self.selected_battlesnake_ids[k - 1] != battlesnake_id
            invariant
                k <= n,
                n == s.len(),
                self.selected_battlesnake_ids@ == s,
                last_index_of(s, battlesnake_id) == last_index_of(
                    s.subrange(0, k as int),
                    battlesnake_id,
                ),
            decreases k,
        {
            let ghost t = s.subrange(0, k as int);
            assert(t.drop_last() =~= s.subrange(0, k - 1));
            k = k - 1;
        }
        if k == 0 {
            assert(s.subrange(0, 0) =~= Seq::<u128>::empty());
            false
        } else {
            assert(s.subrange(0, k as int).last() == battlesnake_id);
            self.selected_battlesnake_ids.remove(k - 1);
            true
        }
    }

    /// Whether the battlesnake is picked at least once.
    pub fn is_battlesnake_selected(&self, battlesnake_id: &u128) -> (r: bool)
        ensures
            r == self.selected_battlesnake_ids@.contains(*battlesnake_id),
    {
        let n = self.selected_battlesnake_ids.len();
        let mut k: usize = 0;
        while k < n
            invariant
                n == self.selected_battlesnake_ids@.len(),
                k <= n,
                forall|j: int| 0 <= j < k ==> self.selected_battlesnake_ids@[j] != *battlesnake_id,
            decreases n - k,
        {
            if self.selected_battlesnake_ids[k] == *battlesnake_id {
                return true;
            }
            k = k + 1;
        }
        false
    }

    /// How many times the battlesnake is picked.
    pub fn battlesnake_count(&self, battlesnake_id: &u128) -> (r: usize)
        ensures
            r == occurrences(self.selected_battlesnake_ids@, *battlesnake_id),
    {
        let ghost s = self.selected_battlesnake_ids@;
        let n = self.selected_battlesnake_ids.len();
        let mut c: usize = 0;
        let mut k: usize = 0;
        while k < n
            invariant
                n == s.len(),
                s == self.selected_battlesnake_ids@,
                k <= n,
                c == occurrences(s.subrange(0, k as int), *battlesnake_id),
                c <= k,
            decreases n - k,
        {
            let ghost t = s.subrange(0, k + 1);
            assert(t.drop_last() =~= s.subrange(0, k as int));
            if self.selected_battlesnake_ids[k] == *battlesnake_id {
                c = c + 1;
            }
            k = k + 1;
        }
        assert(s.subrange(0, n as int) =~= s);
        c
    }

    /// How many battlesnakes are picked.
    pub fn selected_count(&self) -> (r: usize)
        ensures
            r == self.selected_battlesnake_ids@.len(),
    {
        self.selected_battlesnake_ids.len()
    }

    /// Checks that one to four battlesnakes are picked.
    pub fn validate(&self) -> (r: Result<(), FlowError>)
        ensures
            self.selected_battlesnake_ids@.len() == 0 ==> r == Err::<(), FlowError>(
                FlowError::NoSnakes,
            ),
            self.selected_battlesnake_ids@.len() > 4 ==> r == Err::<(), FlowError>(
                FlowError::TooManySnakes,
            ),
            selection_valid(self.selected_battlesnake_ids@) ==> r == Ok::<(), FlowError>(()),
    {
        if self.selected_battlesnake_ids.len() == 0 {
            Err(FlowError::NoSnakes)
        } else if self.selected_battlesnake_ids.len() > MAX_SELECTED {
            Err(FlowError::TooManySnakes)
        } else {
            Ok(())
        }
    }

    /// The request to create the game the flow describes, once it is valid.
    pub fn to_create_game_request(&self) -> (r: Result<CreateGameWithSnakes, FlowError>)
        ensures
            self.selected_battlesnake_ids@.len() == 0 ==> r matches Err(FlowError::NoSnakes),
            self.selected_battlesnake_ids@.len() > 4 ==> r matches Err(FlowError::TooManySnakes),
            selection_valid(self.selected_battlesnake_ids@) ==> (r matches Ok(req)
                && req.board_size == self.board_size && req.game_type == self.game_type
                && req.battlesnake_ids@ == self.selected_battlesnake_ids@),
    {
        match self.validate() {
            Err(e) => Err(e),
            Ok(()) => Ok(
                CreateGameWithSnakes {
                    board_size: self.board_size,
                    game_type: self.game_type,
                    battlesnake_ids: self.selected_battlesnake_ids.clone(),
                },
            ),
        }
    }
}

/// Picking a battlesnake and then dropping it again gives back the
/// selection, whenever the pick was taken.
pub proof fn lemma_add_then_remove_restores(s: Seq<u128>, id: u128)
    requires
        s.len() < 4,
    ensures
        selection_after_remove(selection_after_add(s, id), id) == s,
{
    let t = s.push(id);
    assert(t.last() == id);
    assert(last_index_of(t, id) == s.len());
    assert(t.remove(s.len() as int) =~= s);
}

/// Neither picking nor dropping takes a selection of at most four past
/// four.
pub proof fn lemma_selection_stays_at_most_four(s: Seq<u128>, id: u128)
    requires
        s.len() <= 4,
    ensures
        selection_after_add(s, id).len() <= 4,
        selection_after_remove(s, id).len() <= 4,
{
    lemma_last_index_bounds(s, id);
}

/// A pick that is taken counts the battlesnake once more; dropping a pick
/// counts it once less, and leaves every other battlesnake's count alone.
pub proof fn lemma_pick_counts(s: Seq<u128>, id: u128, other: u128)
    requires
        other != id,
    ensures
        s.len() < 4 ==> occurrences(selection_after_add(s, id), id) == occurrences(s, id) + 1,
        occurrences(selection_after_add(s, id), other) == occurrences(s, other),
        s.contains(id) ==> occurrences(selection_after_remove(s, id), id) + 1 == occurrences(
            s,
            id,
        ),
        occurrences(selection_after_remove(s, id), other) == occurrences(s, other),
{
    lemma_occurrences_push(s, id, id);
    lemma_occurrences_push(s, id, other);
    lemma_last_index_bounds(s, id);
    if s.contains(id) {
        let k = last_index_of(s, id);
        lemma_occurrences_remove(s, k, id);
        lemma_occurrences_remove(s, k, other);
    }
}

/// A battlesnake is picked exactly when it is counted.
pub proof fn lemma_selected_iff_counted(s: Seq<u128>, id: u128)
    ensures
        occurrences(s, id) > 0 <==> s.contains(id),
{
    lemma_occurrences_contains(s, id);
}

/// A flow as it is stored: the board size and game type by their names.
#[derive(Debug, Clone)]
pub struct GameCreationFlowRaw {
    pub flow_id: u128,
    pub board_size: String,
    pub game_type: String,
    pub selected_battlesnakes: Vec<u128>,
    pub search_query: Option<String>,
    pub user_id: u128,
    pub created_at: i64,
    pub updated_at: i64,
}

/// The flow a stored row stands for: a name that names no board size reads
/// as medium, one that names no game type as standard.
pub open spec fn flow_from_raw(raw: GameCreationFlowRaw) -> GameCreationFlow {
    GameCreationFlow {
        flow_id: raw.flow_id,
        board_size: match board_size_from_name(raw.board_size@) {
            Some(b) => b,
            None => GameBoardSize::Medium,
        },
        game_type: match game_type_from_name(raw.game_type@) {
            Some(t) => t,
            None => GameType::Standard,
        },
        selected_battlesnake_ids: raw.selected_battlesnakes,
        search_query: raw.search_query,
        user_id: raw.user_id,
        created_at: raw.created_at,
        updated_at: raw.updated_at,
    }
}

impl From<GameCreationFlowRaw> for GameCreationFlow {
    fn from(raw: GameCreationFlowRaw) -> (r: GameCreationFlow) {
        let board_size = match GameBoardSize::from_str(raw.board_size.as_str()) {
            Ok(b) => b,
            Err(_) => GameBoardSize::Medium,
        };
        let game_type = match GameType::from_str(raw.game_type.as_str()) {
            Ok(t) => t,
            Err(_) => GameType::Standard,
        };
        GameCreationFlow {
            flow_id: raw.flow_id,
            board_size,
            game_type,
            selected_battlesnake_ids: raw.selected_battlesnakes,
            search_query: raw.search_query,
            user_id: raw.user_id,
            created_at: raw.created_at,
            updated_at: raw.updated_at,
        }
    }
}

impl vstd::std_specs::convert::FromSpecImpl<GameCreationFlowRaw> for GameCreationFlow {
    open spec fn obeys_from_spec() -> bool {
        true
    }

    open spec fn from_spec(raw: GameCreationFlowRaw) -> GameCreationFlow {
        flow_from_raw(raw)
    }
}

/// The board size and game type picked on the flow's form, by their stored
/// names.
#[derive(Debug, Clone)]
pub struct ConfigureGameForm {
    pub board_size: String,
    pub game_type: String,
}

/// A search for public battlesnakes.
#[derive(Debug, Clone)]
pub struct SearchQuery {
    pub q: Option<String>,
}

impl GameCreationFlow {
    /// A new flow for a user: a medium standard game with nothing picked and
    /// no search.
    pub fn new_for_user(flow_id: u128, user_id: u128, now: i64) -> (r: GameCreationFlow)
        ensures
            r.flow_id == flow_id,
            r.user_id == user_id,
            r.board_size == GameBoardSize::Medium,
            r.game_type == GameType::Standard,
            r.selected_battlesnake_ids@.len() == 0,
            r.search_query is None,
            r.created_at == now,
            r.updated_at == now,
    {
        GameCreationFlow {
            flow_id,
            board_size: GameBoardSize::Medium,
            game_type: GameType::Standard,
            selected_battlesnake_ids: Vec::new(),
            search_query: None,
            user_id,
            created_at: now,
            updated_at: now,
        }
    }

    /// Takes the board size and game type from the form where they name one;
    /// a name that names none leaves the setting as it was.
    pub fn configure(&mut self, form: &ConfigureGameForm)
        ensures
            final(self).board_size == match board_size_from_name(form.board_size@) {
                Some(b) => b,
                None => old(self).board_size,
            },
            final(self).game_type == match game_type_from_name(form.game_type@) {
                Some(t) => t,
                None => old(self).game_type,
            },
            final(self).selected_battlesnake_ids@ == old(self).selected_battlesnake_ids@,
            final(self).flow_id == old(self).flow_id,
            final(self).user_id == old(self).user_id,
            final(self).search_query == old(self).search_query,
            final(self).created_at == old(self).created_at,
            final(self).updated_at == old(self).updated_at,
    {
        match GameBoardSize::from_str(form.board_size.as_str()) {
            Ok(b) => {
                self.board_size = b;
            },
            Err(_) => {},
        }
        match GameType::from_str(form.game_type.as_str()) {
            Ok(t) => {
                self.game_type = t;
            },
            Err(_) => {},
        }
    }

    /// Drops every pick.
    pub fn reset_selection(&mut self)
        ensures
            final(self).selected_battlesnake_ids@.len() == 0,
            final(self).board_size == old(self).board_size,
            final(self).game_type == old(self).game_type,
            final(self).flow_id == old(self).flow_id,
            final(self).user_id == old(self).user_id,
            final(self).search_query == old(self).search_query,
            final(self).created_at == old(self).created_at,
            final(self).updated_at == old(self).updated_at,
    {
        self.selected_battlesnake_ids.clear();
    }

    /// The notice shown after trying to pick a battlesnake: a warning when
    /// the pick was refused because four are already picked.
    pub fn add_notice(&self, added: bool) -> (r: Option<&'static str>)
        ensures
            (!added && self.selected_battlesnake_ids@.len() >= 4) ==> (r matches Some(m) && m@
                == "Maximum of 4 battlesnakes allowed"@),
            !(!added && self.selected_battlesnake_ids@.len() >= 4) ==> r is None,
    {
        if !added && self.selected_battlesnake_ids.len() >= MAX_SELECTED {
            Some("Maximum of 4 battlesnakes allowed")
        } else {
            None
        }
    }

    /// The text to search public battlesnakes for: none without a query or
    /// with an empty one.
    pub fn search_text(&self) -> (r: Option<&str>)
        ensures
            match self.search_query {
                Some(q) => if q@.len() == 0 {
                    r is None
                } else {
                    r matches Some(t) && t@ == q@
                },
                None => r is None,
            },
    {
        match &self.search_query {
            Some(q) => {
                if q.as_str().unicode_len() == 0 {
                    None
                } else {
                    Some(q.as_str())
                }
            },
            None => None,
        }
    }
}

} // verus!
