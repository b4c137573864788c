//! Verified core of the Arena Battlesnake tournament server: the game rules
//! engine, the board viewer frames, and the small parsers and formatters the
//! web server and command-line tools rely on.

pub mod engine;
pub mod text;
pub mod ids;
pub mod models;
pub mod games_api;
pub mod snake_client;
pub mod stress;
pub mod cli;
pub mod flash;
pub mod engine_models;
pub mod board_viewer;
pub mod api_token;
pub mod game_flow;
pub mod stats;
pub mod snakes_api;
pub mod frame_stream;
pub mod github;
pub mod mock_oauth;
pub mod jobs;
