//! Game simulation following the Battlesnake rules, over the library's own
//! model of the Battlesnake wire representation.

pub mod wire;
pub mod rules;
pub mod run;
pub mod setup;
pub mod frame;
pub mod game_state;
pub mod random_play;
pub mod live;
