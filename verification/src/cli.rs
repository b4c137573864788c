//! Command-line output helpers and the command-line configuration.

use vstd::prelude::*;
use vstd::string::{StrSliceExecFns, StringExecFns};

use crate::ids::{uuid_string, uuid_text};
use crate::text::{decimal, lowercase, owned, push_decimal, str_equals, to_lowercase, trim, trimmed};
use colored::Colorize;
use is_terminal::IsTerminal;

verus! {

/// Output format for command-line commands.
#[derive(Debug, Clone, Copy, PartialEq, Eq, Structural)]
pub enum OutputFormat {
    /// Human-readable output with tables, colors, and formatting.
    Human,
    /// Machine-readable JSON output.
    Json,
}

/// The message for a format name that is neither "json" nor "human".
pub open spec fn invalid_format_message(name: Seq<char>) -> Seq<char> {
    "Invalid format '"@ + name + "'. Use 'json' or 'human'."@
}

/// Whether standard output is a terminal (`is_terminal::IsTerminal` on
/// `std::io::Stdout`). It depends on how the process was started, so
/// nothing is stated of it.
#[verifier::external_body]
fn stdout_is_terminal() -> (r: bool) {
    std::io::stdout().is_terminal()
}

impl OutputFormat {
    /// The output format for an explicit format name, or, with none, the one
    /// that suits the kind of standard output.
    pub fn for_output(format: Option<&str>, stdout_is_terminal: bool) -> (r: Result<
        OutputFormat,
        String,
    >)
        ensures
            match format {
                Some(f) => if f@ == "json"@ {
                    r == Ok::<OutputFormat, String>(OutputFormat::Json)
                } else if f@ == "human"@ {
                    r == Ok::<OutputFormat, String>(OutputFormat::Human)
                } else {
                    r matches Err(e) && e@ == invalid_format_message(f@)
                },
                None => r == Ok::<OutputFormat, String>(
                    if stdout_is_terminal {
                        OutputFormat::Human
                    } else {
                        OutputFormat::Json
                    },
                ),
            },
    {
        match format {
            Some(f) => {
                if str_equals(f, "json") {
                    Ok(OutputFormat::Json)
                } else if str_equals(f, "human") {
                    Ok(OutputFormat::Human)
                } else {
                    let mut e = String::from_str("Invalid format '");
                    e.append(f);
                    e.append("'. Use 'json' or 'human'.");
                    Err(e)
                }
            },
            None => {
                if stdout_is_terminal {
                    Ok(OutputFormat::Human)
                } else {
                    Ok(OutputFormat::Json)
                }
            },
        }
    }

    /// Determines the output format from the command-line flag: "json" or
    /// "human", or, without a flag, human output on a terminal and JSON
    /// otherwise.
    pub fn from_flag(format: Option<&str>) -> (r: Result<OutputFormat, String>)
        ensures
            match format {
                Some(f) => if f@ == "json"@ {
                    r == Ok::<OutputFormat, String>(OutputFormat::Json)
                } else if f@ == "human"@ {
                    r == Ok::<OutputFormat, String>(OutputFormat::Human)
                } else {
                    r matches Err(e) && e@ == invalid_format_message(f@)
                },
                None => r is Ok,
            },
    {
        match format {
            Some(_) => OutputFormat::for_output(format, false),
            None => {
                let tty = stdout_is_terminal();
                OutputFormat::for_output(None, tty)
            },
        }
    }
}

/// The first eight characters of the hyphenated UUID followed by "...".
pub open spec fn uuid_short_text(id: u128) -> Seq<char> {
    uuid_text(id).subrange(0, 8) + "..."@
}

/// A UUID shortened for display: its first eight hexadecimal digits and
/// "...".
pub fn format_uuid_short(id: u128) -> (r: String)
    ensures
        r@ == uuid_short_text(id),
{
    let full = uuid_string(id);
    let head = full.as_str().substring_char(0, 8);
    let mut r = owned(head);
    r.append("...");
    r
}

/// A time pattern chrono formats without error: every `%` is followed by
/// one of `Y`, `m`, `d`, `H`, `M`, `S`.
pub open spec fn plain_time_pattern(p: Seq<char>) -> bool {
    forall|i: int|
        0 <= i < p.len() && #[trigger] p[i] == '%' ==> i + 1 < p.len() && (p[i + 1] == 'Y'
            || p[i + 1] == 'm' || p[i + 1] == 'd' || p[i + 1] == 'H' || p[i + 1] == 'M' || p[i + 1]
            == 'S')
}

/// A Unix time in microseconds as chrono writes it in UTC with the given
/// pattern; none where chrono cannot represent the time.
pub uninterp spec fn utc_formatted(micros: i64, pattern: Seq<char>) -> Option<Seq<char>>;

/// Calls `chrono::DateTime::<Utc>::from_timestamp_micros` and, for a time it
/// represents, `format(pattern)`; the result is named `utc_formatted`.
/// A pattern with another specifier could make the formatting fail and
/// `to_string` panic, hence `plain_time_pattern`.
#[verifier::external_body]
pub(crate) fn format_utc(micros: i64, pattern: &str) -> (r: Option<String>)
    requires
        plain_time_pattern(pattern@),
    ensures
        match r {
            Some(t) => utc_formatted(micros, pattern@) == Some(t@),
            None => utc_formatted(micros, pattern@) is None,
        },
{
    match chrono::DateTime::from_timestamp_micros(micros) {
        Some(t) => Some(t.format(pattern).to_string()),
        None => None,
    }
}

/// The pattern timestamps are shown with.
pub open spec fn timestamp_pattern() -> Seq<char> {
    "%Y-%m-%d %H:%M:%S UTC"@
}

/// Formats a timestamp (microseconds since the Unix epoch) for human
/// readers, in UTC, as `%Y-%m-%d %H:%M:%S UTC`; none for a time outside
/// chrono's range.
pub fn format_timestamp(micros: i64) -> (r: Option<String>)
    ensures
        match r {
            Some(t) => utc_formatted(micros, timestamp_pattern()) == Some(t@),
            None => utc_formatted(micros, timestamp_pattern()) is None,
        },
{
    proof {
        reveal_strlit("%Y-%m-%d %H:%M:%S UTC");
    }
    format_utc(micros, "%Y-%m-%d %H:%M:%S UTC")
}

/// The color a status is shown in.
#[derive(Debug, Clone, Copy, PartialEq, Eq, Structural)]
pub enum StatusColor {
    Green,
    Yellow,
    Dimmed,
    Red,
    Plain,
}

/// The color for a lowercased status name.
pub open spec fn status_color_of(l: Seq<char>) -> StatusColor {
    if l == "complete"@ || l == "finished"@ || l == "done"@ || l == "public"@ {
        StatusColor::Green
    } else if l == "running"@ || l == "active"@ || l == "in_progress"@ {
        StatusColor::Yellow
    } else if l == "waiting"@ || l == "pending"@ || l == "private"@ {
        StatusColor::Dimmed
    } else if l == "error"@ || l == "failed"@ {
        StatusColor::Red
    } else {
        StatusColor::Plain
    }
}

/// The escape sequence that selects a color on an ANSI terminal.
pub open spec fn color_code(c: StatusColor) -> Seq<char> {
    match c {
        StatusColor::Green => seq!['\x1B', '[', '3', '2', 'm'],
        StatusColor::Yellow => seq!['\x1B', '[', '3', '3', 'm'],
        StatusColor::Dimmed => seq!['\x1B', '[', '2', 'm'],
        StatusColor::Red => seq!['\x1B', '[', '3', '1', 'm'],
        StatusColor::Plain => Seq::empty(),
    }
}

/// The escape sequence that resets colors on an ANSI terminal.
pub open spec fn reset_code() -> Seq<char> {
    seq!['\x1B', '[', '0', 'm']
}

/// Whether the text holds the reset sequence.
pub open spec fn has_reset_code(s: Seq<char>) -> bool {
    exists|i: int| 0 <= i && i + 4 <= s.len() && #[trigger] s.subrange(i, i + 4) == reset_code()
}

/// What painting `s` in color `c` may give, for a text without reset codes:
/// the text itself where coloring is off, or the text between the color's
/// code and the reset code.
pub open spec fn painted(s: Seq<char>, c: StatusColor, r: Seq<char>) -> bool {
    !has_reset_code(s) ==> (r == s || r == color_code(c) + s + reset_code())
}

/// Calls `Colorize::green` and formats the result. Whether colors are written
/// depends on the environment and the terminal; with them off the text comes
/// back unchanged, with them on it is wrapped in the green code and the reset
/// code (and reset codes inside it are followed by the green code again).
#[verifier::external_body]
fn paint_green(s: &str) -> (r: String)
    ensures
        painted(s@, StatusColor::Green, r@),
{
    s.green().to_string()
}

/// Calls `Colorize::yellow` and formats the result; as `paint_green`, with the
/// yellow code.
#[verifier::external_body]
fn paint_yellow(s: &str) -> (r: String)
    ensures
        painted(s@, StatusColor::Yellow, r@),
{
    s.yellow().to_string()
}

/// Calls `Colorize::dimmed` and formats the result; as `paint_green`, with the
/// dimmed style code.
#[verifier::external_body]
fn paint_dimmed(s: &str) -> (r: String)
    ensures
        painted(s@, StatusColor::Dimmed, r@),
{
    s.dimmed().to_string()
}

/// Calls `Colorize::red` and formats the result; as `paint_green`, with the
/// red code.
#[verifier::external_body]
fn paint_red(s: &str) -> (r: String)
    ensures
        painted(s@, StatusColor::Red, r@),
{
    s.red().to_string()
}

/// The color a status is shown in, whatever its case.
pub fn status_color(status: &str) -> (r: StatusColor)
    ensures
        r == status_color_of(lowercase(status@)),
{
    let lower = to_lowercase(status);
    let l = lower.as_str();
    if str_equals(l, "complete") || str_equals(l, "finished") || str_equals(l, "done")
        || str_equals(l, "public") {
        StatusColor::Green
    } else if str_equals(l, "running") || str_equals(l, "active") || str_equals(l, "in_progress") {
        StatusColor::Yellow
    } else if str_equals(l, "waiting") || str_equals(l, "pending") || str_equals(l, "private") {
        StatusColor::Dimmed
    } else if str_equals(l, "error") || str_equals(l, "failed") {
        StatusColor::Red
    } else {
        StatusColor::Plain
    }
}

/// Applies color to a status string based on its value: finished and public
/// states in green, running ones in yellow, waiting and private ones dimmed,
/// failures in red, anything else unchanged.
pub fn status_colored(status: &str) -> (r: String)
    ensures
        status_color_of(lowercase(status@)) == StatusColor::Plain ==> r@ == status@,
        painted(status@, status_color_of(lowercase(status@)), r@),
{
    match status_color(status) {
        StatusColor::Green => paint_green(status),
        StatusColor::Yellow => paint_yellow(status),
        StatusColor::Dimmed => paint_dimmed(status),
        StatusColor::Red => paint_red(status),
        StatusColor::Plain => owned(status),
    }
}

/// The API address used when the configuration names none.
pub open spec fn default_api_url() -> Seq<char> {
    "https://arena.battlesnake.com"@
}

/// Authentication settings of the command-line tool.
#[derive(Debug, Clone)]
pub struct AuthConfig {
    pub token: Option<String>,
}

/// Settings of the command-line tool.
#[derive(Debug)]
pub struct CliConfig {
    pub auth: Option<AuthConfig>,
    pub api_url: Option<String>,
}

impl Default for CliConfig {
    fn default() -> (r: CliConfig)
        ensures
            r.auth is None,
            r.api_url is None,
    {
        CliConfig { auth: None, api_url: None }
    }
}

impl CliConfig {
    /// The API base URL: the configured one, or the public arena.
    pub fn api_url(&self) -> (r: &str)
        ensures
            r@ == match self.api_url {
                Some(u) => u@,
                None => default_api_url(),
            },
    {
        match &self.api_url {
            Some(u) => u.as_str(),
            None => {
                let d = "https://arena.battlesnake.com";
                proof {
                    reveal_strlit("https://arena.battlesnake.com");
                }
                d
            },
        }
    }
}

/// The message when a command needs a token and none is stored.
pub open spec fn not_logged_in_message() -> Seq<char> {
    "Not logged in. Run 'arena auth login' first."@
}

impl CliConfig {
    /// The stored API token, which every API command needs.
    pub fn token(&self) -> (r: Result<&str, &'static str>)
        ensures
            match self.auth {
                Some(a) => match a.token {
                    Some(t) => r matches Ok(x) && x@ == t@,
                    None => r matches Err(e) && e@ == not_logged_in_message(),
                },
                None => r matches Err(e) && e@ == not_logged_in_message(),
            },
    {
        match &self.auth {
            Some(a) => match &a.token {
                Some(t) => Ok(t.as_str()),
                None => Err("Not logged in. Run 'arena auth login' first."),
            },
            None => Err("Not logged in. Run 'arena auth login' first."),
        }
    }
}

/// The address that lists games: the limit, and the snake to filter by if
/// one is given.
pub open spec fn games_list_url_text(base: Seq<char>, limit: u32, snake: Option<Seq<char>>) -> Seq<
    char,
> {
    let head = base + "/api/games?limit="@ + decimal(limit as nat);
    match snake {
        Some(id) => head + "&snake_id="@ + id,
        None => head,
    }
}

/// Builds the address that lists games.
pub fn games_list_url(base: &str, limit: u32, snake: Option<&str>) -> (r: String)
    ensures
        r@ == games_list_url_text(
            base@,
            limit,
            match snake {
                Some(s) => Some(s@),
                None => None,
            },
        ),
{
    let mut r = owned(base);
    r.append("/api/games?limit=");
    push_decimal(&mut r, limit as u64);
    match snake {
        Some(id) => {
            r.append("&snake_id=");
            r.append(id);
        },
        None => {},
    }
    r
}

/// The pieces of `s` between commas, in order.
pub open spec fn comma_pieces(s: Seq<char>) -> Seq<Seq<char>>
    decreases s.len(),
{
    if s.len() == 0 {
        seq![Seq::empty()]
    } else {
        let p = comma_pieces(s.drop_last());
        if s.last() == ',' {
            p.push(Seq::empty())
        } else {
            p.update(p.len() - 1, p.last().push(s.last()))
        }
    }
}

proof fn lemma_comma_pieces_nonempty(s: Seq<char>)
    ensures
        comma_pieces(s).len() >= 1,
    decreases s.len(),
{
    if s.len() > 0 {
        lemma_comma_pieces_nonempty(s.drop_last());
    }
}

/// The snake ids of a comma-separated list, each with white space trimmed.
pub fn split_snake_ids(s: &str) -> (r: Vec<String>)
    ensures
        r@.len() == comma_pieces(s@).len(),
        forall|i: int| 0 <= i < r@.len() ==> (#[trigger] r@[i])@ == trimmed(comma_pieces(s@)[i]),
{
    let n = s.unicode_len();
    let mut done: Vec<String> = Vec::new();
    let mut start: usize = 0;
    let mut i: usize = 0;
    while i < n
        invariant
            n == s@.len(),
            start <= i <= n,
            comma_pieces(s@.subrange(0, i as int)).len() == done@.len() + 1,
            comma_pieces(s@.subrange(0, i as int)).last() == s@.subrange(start as int, i as int),
            forall|k: int|
                0 <= k < done@.len() ==> (#[trigger] done@[k])@ == trimmed(
                    comma_pieces(s@.subrange(0, i as int))[k],
                ),
        decreases n - i,
    {
        let ghost pre = s@.subrange(0, i as int);
        let ghost t = s@.subrange(0, i + 1);
        assert(t.drop_last() =~= pre);
        assert(t.last() == s@[i as int]);
        proof {
            lemma_comma_pieces_nonempty(pre);
        }
        if s.get_char(i) == ',' {
            let piece = s.substring_char(start, i);
            done.push(owned(trim(piece)));
            start = i + 1;
            assert(s@.subrange(start as int, i + 1) =~= Seq::<char>::empty());
        } else {
            assert(s@.subrange(start as int, i + 1) =~= s@.subrange(start as int, i as int).push(
                s@[i as int],
            ));
        }
        i = i + 1;
    }
    assert(s@.subrange(0, n as int) =~= s@);
    let last = s.substring_char(start, n);
    done.push(owned(trim(last)));
    done
}

/// The public flag an edit command sends: set by `--public`, cleared by
/// `--private`, absent otherwise.
pub fn edit_public_flag(public: bool, private: bool) -> (r: Option<bool>)
    ensures
        r == if public {
            Some(true)
        } else if private {
            Some(false)
        } else {
            None::<bool>
        },
{
    if public {
        Some(true)
    } else if private {
        Some(false)
    } else {
        None
    }
}

/// Whether `arena games watch` stops polling: the game's status is the
/// text "finished".
pub fn watch_should_stop(status: Option<&str>) -> (r: bool)
    ensures
        r == (status matches Some(t) && t@ == "finished"@),
{
    proof {
        reveal_strlit("finished");
    }
    match status {
        Some(t) => str_equals(t, "finished"),
        None => false,
    }
}

} // verus!
