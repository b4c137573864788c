//! The background jobs the server enqueues, as the values they carry.

use vstd::prelude::*;

verus! {

/// A job that does nothing.
#[derive(Debug, Clone, Copy, PartialEq, Eq, Structural)]
pub struct NoopJob;

/// Runs a game; the id is a UUID held as an integer.
#[derive(Debug, Clone, Copy, PartialEq, Eq, Structural)]
pub struct GameRunnerJob {
    pub game_id: u128,
}

/// Finds finished games that still need archiving.
#[derive(Debug, Clone, Copy, PartialEq, Eq, Structural)]
pub struct GameBackupJob;

/// Archives one game of the Battlesnake Engine, possibly as part of a
/// numbered batch.
#[derive(Debug, Clone)]
pub struct BackupSingleGameJob {
    pub engine_game_id: String,
    pub batch_id: Option<i32>,
}

} // verus!
