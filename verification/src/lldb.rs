//! Tidying of the results that the native adapter returns for an evaluation.
//!
//! The adapter answers in the words of its command line: the command may be
//! echoed on a first line, and the value stands behind its type and a result
//! variable, as in `(int) $0 = 12`. What the interface shows is the value.

use vstd::prelude::*;
use crate::text::{text_view, trim_text, trimmed_text};

verus! {

/// The text that capture group `group` matched in the first match of the
/// regular expression `pattern` in `text`, as the regex crate finds it:
/// `None` where `Regex::new` refuses the pattern, where `Regex::captures`
/// finds no match, or where the match has no such group.
pub uninterp spec fn regex_capture(pattern: Seq<char>, text: Seq<char>, group: int) -> Option<
    Seq<char>,
>;

/// `Regex::new`, `Regex::captures` and `Captures::get` of the regex crate:
/// compiles `pattern`, searches `text` for its first match, and returns what
/// capture group `group` matched. The result is [`regex_capture`] of the
/// three.
#[verifier::external_body]
fn first_capture(pattern: &str, text: &str, group: usize) -> (r: Option<String>)
    ensures
        text_view(r) == regex_capture(pattern@, text@, group as int),
{
    let re = regex::Regex::new(pattern).ok()?;
    let caps = re.captures(text)?;
    caps.get(group).map(|m| m.as_str().to_string())
}

/// The pattern of a full answer: the echoed command on one line, the typed
/// value on the next.
pub open spec fn full_pattern() -> Seq<char> {
    "\\(lldb\\).*\\n\\(\\w+\\)\\s+\\$\\d+\\s+=\\s+(.+)"@
}

/// The pattern of the typed value alone.
pub open spec fn short_pattern() -> Seq<char> {
    "\\(\\w+\\)\\s+\\$\\d+\\s+=\\s+(.+)"@
}

/// The value in an answer, given what the two patterns captured: what the
/// full pattern captured, else what the short one captured, else the answer
/// itself; in each case without the white space around it.
pub open spec fn lldb_value(
    result: Seq<char>,
    full: Option<Seq<char>>,
    short: Option<Seq<char>>,
) -> Seq<char> {
    match full {
        Some(c) => trimmed_text(c),
        None => match short {
            Some(c) => trimmed_text(c),
            None => trimmed_text(result),
        },
    }
}

/// Picks the value out of an answer, given what the two patterns captured.
pub fn select_lldb_value(result: &str, full: Option<String>, short: Option<String>) -> (r: String)
    ensures
        r@ == lldb_value(result@, text_view(full), text_view(short)),
{
    match full {
        Some(c) => trim_text(c.as_str()),
        None => match short {
            Some(c) => trim_text(c.as_str()),
            None => trim_text(result),
        },
    }
}

/// Picks the value out of an answer of the native adapter.
pub fn parse_lldb_result(result: &str) -> (r: String)
    ensures
        r@ == lldb_value(
            result@,
            regex_capture(full_pattern(), result@, 1),
            regex_capture(short_pattern(), result@, 1),
        ),
{
    let full = first_capture("\\(lldb\\).*\\n\\(\\w+\\)\\s+\\$\\d+\\s+=\\s+(.+)", result, 1);
    let short = first_capture("\\(\\w+\\)\\s+\\$\\d+\\s+=\\s+(.+)", result, 1);
    select_lldb_value(result, full, short)
}

} // verus!
