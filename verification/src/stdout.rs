//! Reading the test runner's output.
//!
//! The runner prints a line for each test case that passed: spaces, a check
//! mark, a space and the test case's message, and sometimes the time it took
//! in parentheses.
use regex::Regex;
use vstd::prelude::*;

verus! {

/// A line with the time: `  ✔ message (42ms)`.
pub const LINE_WITH_TIME: &'static str = r"^\s*. (.*) \(.*\)$";

/// A line without the time: `  ✔ message`.
pub const LINE_WITHOUT_TIME: &'static str = r"^\s*. (.*)$";

/// What the first group of the regular expression `pattern` captures in
/// `line`, as the `regex` crate finds it. `None` where `pattern` is no
/// regular expression, where `line` does not match, and where the group
/// takes no part in the match.
pub uninterp spec fn first_group(pattern: Seq<char>, line: Seq<char>) -> Option<Seq<char>>;

/// Compiles `pattern` with `Regex::new` of the `regex` crate, matches `line`
/// with `Regex::captures`, and returns the text of group 1.
///
/// Claimed of the outside code: the result depends on `pattern` and `line`
/// alone.
#[verifier::external_body]
fn capture_first_group(pattern: &str, line: &str) -> (r: Option<String>)
    ensures
        r matches Some(s) ==> first_group(pattern@, line@) == Some(s@),
        r is None ==> first_group(pattern@, line@) is None,
{
    match Regex::new(pattern) {
        Ok(regex) => regex.captures(line).and_then(|c| c.get(1)).map(|m| m.as_str().to_string()),
        Err(_) => None,
    }
}

/// The message that a line reports, given what the two patterns capture in
/// it: what the pattern with the time captures, else what the one without
/// it does.
pub open spec fn preferred(with_time: Option<Seq<char>>, without_time: Option<Seq<char>>)
    -> Option<Seq<char>> {
    if with_time is Some {
        with_time
    } else {
        without_time
    }
}

/// The message of the test case that `line` reports as passed.
pub open spec fn reported_message(line: Seq<char>) -> Option<Seq<char>> {
    preferred(first_group(LINE_WITH_TIME@, line), first_group(LINE_WITHOUT_TIME@, line))
}

/// The message that a line reports, given what the two patterns capture in
/// it.
pub fn prefer(with_time: Option<String>, without_time: Option<String>) -> (r: Option<String>)
    ensures
        r matches Some(s) ==> preferred(
            option_view(with_time),
            option_view(without_time),
        ) == Some(s@),
        r is None ==> preferred(option_view(with_time), option_view(without_time)) is None,
{
    match with_time {
        Some(message) => Some(message),
        None => without_time,
    }
}

/// What `s` holds, as a sequence of characters.
pub open spec fn option_view(s: Option<String>) -> Option<Seq<char>> {
    match s {
        Some(s) => Some(s@),
        None => None,
    }
}

/// The message of the test case that `line` reports as passed, if it
/// reports one.
pub fn it_message_of_line(line: &str) -> (r: Option<String>)
    ensures
        r matches Some(s) ==> reported_message(line@) == Some(s@),
        r is None ==> reported_message(line@) is None,
{
    let with_time = capture_first_group(LINE_WITH_TIME, line);
    let without_time = capture_first_group(LINE_WITHOUT_TIME, line);
    prefer(with_time, without_time)
}

} // verus!
