//! Flash messages: the one-time notices shown after a redirect, their kinds,
//! the CSS classes they are shown with and the cookies that carry them.

use vstd::prelude::*;
use vstd::string::StringExecFns;

use crate::text::str_equals;

verus! {

/// Flash type stored for a success notice.
pub const FLASH_TYPE_SUCCESS: &'static str = "success";

/// Flash type stored for an error notice.
pub const FLASH_TYPE_ERROR: &'static str = "error";

/// Flash type stored for an informational notice.
pub const FLASH_TYPE_INFO: &'static str = "info";

/// Flash type stored for a warning.
pub const FLASH_TYPE_WARNING: &'static str = "warning";

/// Flash type stored for a plain notice.
pub const FLASH_TYPE_PRIMARY: &'static str = "primary";

/// Flash message types.
#[derive(Debug, Clone, Copy, PartialEq, Eq, Structural)]
pub enum FlashType {
    Success,
    Error,
    Info,
    Warning,
    Primary,
}

/// The CSS class of each flash type.
pub open spec fn flash_type_class(t: FlashType) -> Seq<char> {
    match t {
        FlashType::Success => "alert alert-success"@,
        FlashType::Error => "alert alert-danger"@,
        FlashType::Info => "alert alert-info"@,
        FlashType::Warning => "alert alert-warning"@,
        FlashType::Primary => "alert alert-primary"@,
    }
}

/// The stored name of each flash type.
pub open spec fn flash_type_name(t: FlashType) -> Seq<char> {
    match t {
        FlashType::Success => "success"@,
        FlashType::Error => "error"@,
        FlashType::Info => "info"@,
        FlashType::Warning => "warning"@,
        FlashType::Primary => "primary"@,
    }
}

/// The flash type a stored name stands for; unknown names are plain notices.
pub open spec fn flash_type_from_name(s: Seq<char>) -> FlashType {
    if s == "success"@ {
        FlashType::Success
    } else if s == "error"@ {
        FlashType::Error
    } else if s == "info"@ {
        FlashType::Info
    } else if s == "warning"@ {
        FlashType::Warning
    } else {
        FlashType::Primary
    }
}

/// The CSS class for an optional stored flash type: none for no type, the
/// plain notice class for names it does not know.
pub open spec fn flash_class_of(t: Option<Seq<char>>) -> Seq<char> {
    match t {
        Some(name) => flash_type_class(flash_type_from_name(name)),
        None => Seq::empty(),
    }
}

impl FlashType {
    /// The CSS class the flash is shown with.
    pub fn to_class(self) -> (r: &'static str)
        ensures
            r@ == flash_type_class(self),
    {
        proof {
            reveal_strlit("alert alert-success");
            reveal_strlit("alert alert-danger");
            reveal_strlit("alert alert-info");
            reveal_strlit("alert alert-warning");
            reveal_strlit("alert alert-primary");
        }
        match self {
            FlashType::Success => "alert alert-success",
            FlashType::Error => "alert alert-danger",
            FlashType::Info => "alert alert-info",
            FlashType::Warning => "alert alert-warning",
            FlashType::Primary => "alert alert-primary",
        }
    }

    /// Parses a stored flash type name; unknown names give a plain notice.
    pub fn from_str(s: &str) -> (r: FlashType)
        ensures
            r == flash_type_from_name(s@),
    {
        if str_equals(s, "success") {
            FlashType::Success
        } else if str_equals(s, "error") {
            FlashType::Error
        } else if str_equals(s, "info") {
            FlashType::Info
        } else if str_equals(s, "warning") {
            FlashType::Warning
        } else {
            FlashType::Primary
        }
    }

    /// The name the flash type is stored under.
    pub fn to_str(self) -> (r: &'static str)
        ensures
            r@ == flash_type_name(self),
    {
        proof {
            reveal_strlit("success");
            reveal_strlit("error");
            reveal_strlit("info");
            reveal_strlit("warning");
            reveal_strlit("primary");
        }
        match self {
            FlashType::Success => "success",
            FlashType::Error => "error",
            FlashType::Info => "info",
            FlashType::Warning => "warning",
            FlashType::Primary => "primary",
        }
    }
}

/// Reading a flash type's stored name gives the type back.
pub proof fn lemma_flash_type_names_round_trip(t: FlashType)
    ensures
        flash_type_from_name(flash_type_name(t)) == t,
{
    reveal_strlit("success");
    reveal_strlit("error");
    reveal_strlit("info");
    reveal_strlit("warning");
    reveal_strlit("primary");
    assert("error"@.len() == 5);
    assert("info"@.len() == 4);
    assert("success"@[0] != "warning"@[0]);
    assert("success"@[0] != "primary"@[0]);
    assert("warning"@[0] != "primary"@[0]);
    assert("success"@.len() == 7 && "warning"@.len() == 7 && "primary"@.len() == 7);
}

/// A flash type's class is the class of its stored name.
pub proof fn lemma_flash_class_agrees(t: FlashType)
    ensures
        flash_class_of(Some(flash_type_name(t))) == flash_type_class(t),
{
    lemma_flash_type_names_round_trip(t);
}

/// The CSS class for an optional stored flash type.
pub fn flash_class(flash_type: &Option<String>) -> (r: &'static str)
    ensures
        r@ == flash_class_of(
            match flash_type {
                Some(s) => Some(s@),
                None => None,
            },
        ),
{
    match flash_type {
        Some(name) => FlashType::from_str(name.as_str()).to_class(),
        None => {
            proof {
                reveal_strlit("");
            }
            ""
        },
    }
}

/// A flash message read from the session.
#[derive(Debug, Clone)]
pub struct Flash {
    pub message: Option<String>,
    pub flash_type: Option<String>,
}

impl Flash {
    /// The flash message, if there is one.
    pub fn message(&self) -> (r: &Option<String>)
        ensures
            r == &self.message,
    {
        &self.message
    }

    /// The CSS class for the flash type: none without a type.
    pub fn class(&self) -> (r: &'static str)
        ensures
            r@ == flash_class_of(
                match self.flash_type {
                    Some(s) => Some(s@),
                    None => None,
                },
            ),
    {
        flash_class(&self.flash_type)
    }
}

/// A byte that percent-encoding keeps: an ASCII digit or letter, or one of
/// `-`, `.`, `_`, `~`.
pub open spec fn unreserved(b: u8) -> bool {
    (48 <= b <= 57) || (65 <= b <= 90) || (97 <= b <= 122) || b == 45 || b == 46 || b == 95
        || b == 126
}

/// The uppercase hexadecimal digit for `d < 16`.
pub open spec fn upper_hex(d: int) -> char {
    if d < 10 {
        (48 + d) as char
    } else {
        (55 + d) as char
    }
}

/// Percent-encoded bytes: a kept byte stands for itself, every other byte
/// is `%` followed by its two uppercase hexadecimal digits.
pub open spec fn percent_encoded(b: Seq<u8>) -> Seq<char>
    decreases b.len(),
{
    if b.len() == 0 {
        Seq::empty()
    } else {
        let x = b.last();
        percent_encoded(b.drop_last()) + if unreserved(x) {
            seq![x as char]
        } else {
            seq!['%', upper_hex((x / 16) as int), upper_hex((x % 16) as int)]
        }
    }
}

/// The percent-encoded form of a text: its UTF-8 bytes, encoded.
pub open spec fn url_encoded(s: Seq<char>) -> Seq<char> {
    percent_encoded(vstd::utf8::encode_utf8(s))
}

/// Calls `urlencoding::encode`, which percent-encodes the text's UTF-8
/// bytes, keeping ASCII letters, digits and `-._~`.
#[verifier::external_body]
pub(crate) fn url_encode(s: &str) -> (r: String)
    ensures
        r@ == url_encoded(s@),
{
    urlencoding::encode(s).into_owned()
}

/// The attributes every flash cookie is set with.
pub open spec fn cookie_attributes() -> Seq<char> {
    "; Path=/; HttpOnly; SameSite=Lax"@
}

/// The `Set-Cookie` value that carries a flash message.
pub open spec fn message_cookie(message: Seq<char>) -> Seq<char> {
    "flash_message="@ + url_encoded(message) + cookie_attributes()
}

/// The `Set-Cookie` value that carries a flash type.
pub open spec fn type_cookie(t: FlashType) -> Seq<char> {
    "flash_type="@ + flash_type_name(t) + cookie_attributes()
}

/// The two `Set-Cookie` values a flash redirect adds: the encoded message,
/// then the flash type.
pub fn flash_cookies(message: &str, flash_type: FlashType) -> (r: (String, String))
    ensures
        r.0@ == message_cookie(message@),
        r.1@ == type_cookie(flash_type),
{
    let mut m = String::from_str("flash_message=");
    let encoded = url_encode(message);
    m.append(encoded.as_str());
    m.append("; Path=/; HttpOnly; SameSite=Lax");
    let mut t = String::from_str("flash_type=");
    t.append(flash_type.to_str());
    t.append("; Path=/; HttpOnly; SameSite=Lax");
    (m, t)
}

} // verus!
