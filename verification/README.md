# arena

The verified core of a Battlesnake tournament server: the game rules engine,
game set-up and random play, the frames shown by the board viewer, and the
small parsers, formatters and request checks that the web server, the
command-line tool and the load tester rely on. The library's own functions
in `src/` are proved against their contracts by Verus; the small wrappers
marked `#[verifier::external_body]`, which call the outside crates and std,
are trusted, and each states in its doc comment what it assumes.

Layout:

- `src/engine/` — the wire model of a game (`wire`), one turn of the rules
  (`rules`), running a game and ranking its snakes (`run`), setting up a game
  (`setup`), playing with random reasonable moves, from the system's
  randomness or from a generator seeded by the game id (`random_play`), playing
  turn by turn against live snake servers (`live`), board viewer frames
  (`frame`) and a simple grid game state (`game_state`).
- `src/models.rs`, `src/games_api.rs`, `src/snakes_api.rs`, `src/game_flow.rs`
  — game settings and their names, API request checks, and the game set-up
  flow of the web pages.
- `src/snake_client.rs`, `src/frame_stream.rs`, `src/board_viewer.rs` — talking
  to snake servers and streaming frames to viewers, as decisions the caller
  carries out.
- `src/cli.rs`, `src/stress.rs`, `src/stats.rs`, `src/flash.rs`,
  `src/github.rs`, `src/api_token.rs`, `src/engine_models.rs`,
  `src/mock_oauth.rs` — command-line output and requests, load-test parsing
  and percentiles, battlesnake statistics, flash messages, GitHub sign-in,
  API tokens, archived games and the backup run's outcome, and the mock OAuth
  server's single-use codes and tokens.
- `src/text.rs`, `src/ids.rs` — string helpers and the text form of UUIDs,
  which the library holds as 128-bit integers.
- `tests/` — tests run against the compiled library.
- `app/` — a small simulator program around the library, serializable copies
  of the frame types, and the parts that compute with floating point.
