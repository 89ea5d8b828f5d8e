//! The AppleScript line that posts a notification.

use vstd::prelude::*;
use vstd::string::*;

verus! {

/// What std's `Debug` formatting of a string slice prints for `s`.
pub uninterp spec fn debug_str(s: Seq<char>) -> Seq<char>;

/// Formats `s` with std's `Debug` for `str` (`format!("{:?}", s)`): the text
/// between double quotes, with quotes, backslashes and unprintable characters
/// escaped. The contract names the result `debug_str(s@)` and says nothing
/// more of it: the escaping rules rest on Unicode tables of std.
#[verifier::external_body]
fn debug_quote(s: &str) -> (quoted: String)
    ensures
        quoted@ == debug_str(s@),
{
    format!("{:?}", s)
}

/// The AppleScript line for a notification whose body and title are already
/// quoted.
pub open spec fn notification_line(quoted_body: Seq<char>, quoted_title: Seq<char>) -> Seq<char> {
    "display notification "@ + quoted_body + " with title "@ + quoted_title
}

/// Builds `display notification {body} with title {title}` from a quoted body
/// and title.
pub fn notification_script_quoted(quoted_body: &str, quoted_title: &str) -> (script: String)
    ensures
        script@ == notification_line(quoted_body@, quoted_title@),
{
    let mut script = String::new();
    script.append("display notification ");
    script.append(quoted_body);
    script.append(" with title ");
    script.append(quoted_title);
    script
}

/// The AppleScript line (for `osascript -e`) that posts a notification with
/// `title` and `body`, each written as a Rust string literal.
pub fn notification_script(title: &str, body: &str) -> (script: String)
    ensures
        script@ == notification_line(debug_str(body@), debug_str(title@)),
{
    let quoted_body = debug_quote(body);
    let quoted_title = debug_quote(title);
    notification_script_quoted(quoted_body.as_str(), quoted_title.as_str())
}

} // verus!
