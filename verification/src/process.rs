//! What the programs that the agent runs tell it while they run.
use crate::text::{parts_end_at_separators, split, split_at_each, texts};
use vstd::prelude::*;
use vstd::string::*;

verus! {

/// What is heard of a program that is running. What it writes comes as text: bytes that are no
/// text have been replaced.
pub enum ProcessEvent {
    /// It wrote a line to its output.
    Stdout(String),
    /// It wrote a line to its error output.
    Stderr(String),
    /// It ended, with an exit code where the system gave one.
    Terminated(Option<i32>),
    /// It can no longer be heard.
    Error(String),
    /// Something that says nothing about its work.
    Other,
    /// It said nothing for as long as it may.
    Silence,
    /// Nothing more will be heard of it.
    Closed,
}

/// `text` and a line feed behind `before`.
pub open spec fn with_line(before: Seq<char>, text: Seq<char>) -> Seq<char> {
    (before + text).push('\n')
}

/// Adds a line to a text.
pub fn push_line(out: &mut String, text: &str)
    ensures
        final(out)@ == with_line(old(out)@, text@),
{
    out.append(text);
    out.push('\n');
}

/// Hours, minutes and seconds of a time of day, by their texts: the parts before, between and
/// behind the first two colons. What follows a third colon is left out.
pub open spec fn clock_parts(s: Seq<char>) -> Option<(Seq<char>, Seq<char>, Seq<char>)> {
    let parts = split(s, ':');
    if parts.len() < 3 {
        None
    } else {
        Some((parts[0], parts[1], parts[2]))
    }
}

/// Hours, minutes and seconds of a time such as `00:42:13.50`, by their texts.
pub fn clock_fields(s: &str) -> (r: Option<(String, String, String)>)
    ensures
        (match r {
            Some(t) => Some((t.0@, t.1@, t.2@)),
            None => None,
        }) == clock_parts(s@),
{
    let parts = split_at_each(s, ':');
    let ghost all = split(s@, ':');
    assert(all == texts(parts@));
    if parts.len() < 3 {
        return None;
    }
    assert(all[0] == parts@[0]@ && all[1] == parts@[1]@ && all[2] == parts@[2]@);
    Some((parts[0].clone(), parts[1].clone(), parts[2].clone()))
}

/// A line goes behind the text before it, and a line feed behind the line.
pub proof fn lines_are_added_at_the_end(before: Seq<char>, text: Seq<char>)
    ensures
        with_line(before, text) == before + text + seq!['\n'],
{
    assert(with_line(before, text) =~= before + text + seq!['\n']);
}

/// A time of day is read by its colons: hours before the first, minutes behind it, seconds behind
/// the second, and nothing that stands behind a third. Where there are fewer than two colons, it
/// is no time.
pub proof fn a_time_is_read_by_its_colons(
    h: Seq<char>,
    m: Seq<char>,
    s: Seq<char>,
    rest: Seq<char>,
)
    requires
        !h.contains(':'),
        !m.contains(':'),
        !s.contains(':'),
    ensures
        clock_parts(h.push(':') + (m.push(':') + s)) == Some((h, m, s)),
        clock_parts(h.push(':') + (m.push(':') + (s.push(':') + rest))) == Some((h, m, s)),
        clock_parts(h) is None,
        clock_parts(h.push(':') + m) is None,
{
    parts_end_at_separators(h, m.push(':') + s, ':');
    parts_end_at_separators(m, s, ':');
    parts_end_at_separators(s, rest, ':');
    parts_end_at_separators(h, m.push(':') + (s.push(':') + rest), ':');
    parts_end_at_separators(m, s.push(':') + rest, ':');
    parts_end_at_separators(h, m, ':');
}

} // verus!
