//! The marked section that the tool maintains inside a text file of the
//! user.

use crate::text::{
    chars_of, find, first_occurrence, has_substring, push_char, string_of, string_of_range,
    trim_bounds, trimmed,
};
use vstd::prelude::*;

verus! {

pub const MARKER_START: &'static str = "<!-- mulch:start -->";

pub const MARKER_END: &'static str = "<!-- mulch:end -->";

/// Whether the content holds the start marker.
pub fn has_marker_section(content: &str) -> (r: bool)
    ensures
        r == has_substring(content@, MARKER_START@),
{
    crate::text::str_contains(content, MARKER_START)
}

/// The content with everything from the start marker at `start` to the end
/// of the end marker at `end` replaced by `section`.
pub open spec fn with_section(content: Seq<char>, start: int, end: int, section: Seq<char>) -> Seq<
    char,
> {
    content.take(start) + section + content.skip(end + MARKER_END@.len())
}

/// The content holds both markers, the first start marker at `start`, the
/// first end marker at `end`.
pub open spec fn markers_at(content: Seq<char>, start: int, end: int) -> bool {
    first_occurrence(content, MARKER_START@, start) && first_occurrence(content, MARKER_END@, end)
}

/// The content holds both markers.
pub open spec fn has_both_markers(content: Seq<char>) -> bool {
    has_substring(content, MARKER_START@) && has_substring(content, MARKER_END@)
}

/// Replaces the marked section, markers included, by `new_section`. `None`
/// where a marker is missing.
pub fn replace_marker_section(content: &str, new_section: &str) -> (r: Option<String>)
    ensures
        r is Some <==> has_both_markers(content@),
        r matches Some(out) ==> exists|start: int, end: int| #[trigger]
            markers_at(content@, start, end) && out@ == with_section(
                content@,
                start,
                end,
                new_section@,
            ),
{
    let chars = chars_of(content);
    let start_marker = chars_of(MARKER_START);
    let end_marker = chars_of(MARKER_END);
    let start = match find(chars.as_slice(), start_marker.as_slice()) {
        Some(i) => i,
        None => {
            return None;
        },
    };
    let end = match find(chars.as_slice(), end_marker.as_slice()) {
        Some(i) => i,
        None => {
            return None;
        },
    };
    let total = chars.len();
    let mut out = string_of_range(chars.as_slice(), 0, start);
    out.append(new_section);
    let after = string_of_range(chars.as_slice(), end + end_marker.len(), total);
    out.append(after.as_str());
    proof {
        assert(markers_at(content@, start as int, end as int));
        assert(out@ =~= with_section(content@, start as int, end as int, new_section@));
    }
    Some(out)
}

/// The text with every line feed left out that follows two line feeds: no
/// run of line feeds is longer than two.
pub open spec fn collapsed(s: Seq<char>) -> Seq<char>
    decreases s.len(),
{
    if s.len() == 0 {
        Seq::empty()
    } else if s.len() >= 3 && s[s.len() - 1] == '\n' && s[s.len() - 2] == '\n' && s[s.len() - 3]
        == '\n' {
        collapsed(s.drop_last())
    } else {
        collapsed(s.drop_last()).push(s.last())
    }
}

/// The content without its marked section: what stands before the first
/// start marker and after the first end marker, with runs of line feeds cut
/// to two, trimmed, and ended by one line feed. The content as it is where
/// a marker is missing.
pub open spec fn without_section(content: Seq<char>, start: int, end: int) -> Seq<char> {
    trimmed(collapsed(with_section(content, start, end, Seq::empty()))).push('\n')
}

fn collapse_newlines(s: &[char]) -> (out: Vec<char>)
    ensures
        out@ == collapsed(s@),
{
    let mut out: Vec<char> = Vec::new();
    let mut i: usize = 0;
    assert(s@.take(0) =~= Seq::empty());
    while i < s.len()
        invariant
            i <= s@.len(),
            out@ == collapsed(s@.take(i as int)),
        decreases s.len() - i,
    {
        proof {
            let upto = s@.take(i + 1);
            assert(upto.drop_last() =~= s@.take(i as int));
            assert(upto.last() == s@[i as int]);
            if i >= 2 {
                assert(upto[upto.len() - 2] == s@[i - 1]);
                assert(upto[upto.len() - 3] == s@[i - 2]);
            }
        }
        if !(i >= 2 && s[i] == '\n' && s[i - 1] == '\n' && s[i - 2] == '\n') {
            out.push(s[i]);
        }
        i += 1;
    }
    assert(s@.take(s@.len() as int) =~= s@);
    out
}

/// Removes the marked section, markers included, and tidies the white space
/// that is left.
pub fn remove_marker_section(content: &str) -> (out: String)
    ensures
        !has_both_markers(content@) ==> out@ == content@,
        has_both_markers(content@) ==> exists|start: int, end: int| #[trigger]
            markers_at(content@, start, end) && out@ == without_section(content@, start, end),
{
    let chars = chars_of(content);
    let start_marker = chars_of(MARKER_START);
    let end_marker = chars_of(MARKER_END);
    let start = match find(chars.as_slice(), start_marker.as_slice()) {
        Some(i) => i,
        None => {
            return string_of(chars.as_slice());
        },
    };
    let end = match find(chars.as_slice(), end_marker.as_slice()) {
        Some(i) => i,
        None => {
            return string_of(chars.as_slice());
        },
    };
    let mut combined: Vec<char> = Vec::new();
    let mut i: usize = 0;
    while i < start
        invariant
            i <= start <= chars@.len(),
            combined@ == chars@.take(i as int),
        decreases start - i,
    {
        combined.push(chars[i]);
        assert(chars@.take(i + 1) =~= chars@.take(i as int).push(chars@[i as int]));
        i += 1;
    }
    let total = chars.len();
    let from = end + end_marker.len();
    let mut j: usize = from;
    while j < chars.len()
        invariant
            from <= j <= chars@.len(),
            start <= chars@.len(),
            combined@ == chars@.take(start as int) + chars@.subrange(from as int, j as int),
        decreases chars.len() - j,
    {
        combined.push(chars[j]);
        assert(chars@.subrange(from as int, j + 1) =~= chars@.subrange(from as int, j as int).push(
            chars@[j as int],
        ));
        assert(combined@ =~= chars@.take(start as int) + chars@.subrange(from as int, j + 1));
        j += 1;
    }
    assert(combined@ =~= with_section(content@, start as int, end as int, Seq::empty()));
    let cleaned = collapse_newlines(combined.as_slice());
    let (a, b) = trim_bounds(cleaned.as_slice());
    let mut out = string_of_range(cleaned.as_slice(), a, b);
    push_char(&mut out, '\n');
    proof {
        assert(markers_at(content@, start as int, end as int));
    }
    out
}

/// The snippet as a marked section.
pub fn wrap_in_markers(snippet: &str) -> (out: String)
    ensures
        out@ == MARKER_START@ + "\n"@ + snippet@ + MARKER_END@,
{
    let mut out = String::new();
    out.append(MARKER_START);
    out.append("\n");
    out.append(snippet);
    out.append(MARKER_END);
    out
}

} // verus!
