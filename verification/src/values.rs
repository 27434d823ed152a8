//! Reading the values that a user gives as text: lists, tiers, statuses.

use crate::error::MulchError;
use crate::text::{
    chars_of, pieces, split_trimmed, split_words, str_eq, string_of, strs, trim_bounds, trimmed,
    trimmed_nonblank, words,
};
use crate::types::{Classification, OutcomeStatus};
use vstd::prelude::*;

verus! {

/// The items of a comma-separated list: what stands between the commas,
/// without the white space around it, empty items left out.
pub open spec fn csv_items(s: Seq<char>) -> Seq<Seq<char>> {
    trimmed_nonblank(pieces(s, ','))
}

/// The items of a comma-separated list.
pub fn parse_csv(s: &str) -> (items: Vec<String>)
    ensures
        strs(items@) == csv_items(s@),
{
    split_trimmed(s, ',')
}

/// The domain names of a comma-separated list.
pub fn parse_domain_flag(raw: &str) -> (names: Vec<String>)
    ensures
        strs(names@) == csv_items(raw@),
{
    split_trimmed(raw, ',')
}

/// The text with every comma replaced by a space.
pub open spec fn commas_as_spaces(s: Seq<char>) -> Seq<char> {
    Seq::new(s.len(), |i: int| if s[i] == ',' { ' ' } else { s[i] })
}

/// The paths of a list that is separated by commas, white space or both.
pub fn parse_file_paths(raw: &str) -> (paths: Vec<String>)
    ensures
        strs(paths@) == words(commas_as_spaces(raw@)),
{
    let chars = chars_of(raw);
    let mut spaced: Vec<char> = Vec::new();
    let mut i: usize = 0;
    while i < chars.len()
        invariant
            i <= chars@.len(),
            spaced@ == Seq::new(i as nat, |j: int| if chars@[j] == ',' { ' ' } else { chars@[j] }),
        decreases chars.len() - i,
    {
        if chars[i] == ',' {
            spaced.push(' ');
        } else {
            spaced.push(chars[i]);
        }
        i += 1;
        assert(spaced@ =~= Seq::new(
            i as nat,
            |j: int| if chars@[j] == ',' { ' ' } else { chars@[j] },
        ));
    }
    assert(spaced@ =~= commas_as_spaces(raw@));
    split_words(spaced.as_slice())
}

/// The tier with the given name, if there is one.
pub open spec fn classification_named(s: Seq<char>) -> Option<Classification> {
    if s == Classification::Foundational.name() {
        Some(Classification::Foundational)
    } else if s == Classification::Tactical.name() {
        Some(Classification::Tactical)
    } else if s == Classification::Observational.name() {
        Some(Classification::Observational)
    } else {
        None
    }
}

/// The status with the given name, if there is one.
pub open spec fn status_named(s: Seq<char>) -> Option<OutcomeStatus> {
    if s == OutcomeStatus::Success.name() {
        Some(OutcomeStatus::Success)
    } else if s == OutcomeStatus::Failure.name() {
        Some(OutcomeStatus::Failure)
    } else if s == OutcomeStatus::Partial.name() {
        Some(OutcomeStatus::Partial)
    } else {
        None
    }
}

fn invalid(what: &str, given: &str) -> (e: MulchError)
    ensures
        e matches MulchError::ValidationError(detail) && detail@ == what@ + given@,
{
    let mut detail = String::new();
    detail.append(what);
    detail.append(given);
    MulchError::ValidationError(detail)
}

/// Reads the name of a tier.
pub fn parse_classification(s: &str) -> (r: Result<Classification, MulchError>)
    ensures
        match r {
            Ok(c) => classification_named(s@) == Some(c),
            Err(e) => classification_named(s@) is None && (e matches MulchError::ValidationError(
                detail,
            ) && detail@ == "Invalid classification: "@ + s@),
        },
{
    if str_eq(s, Classification::Foundational.as_str()) {
        Ok(Classification::Foundational)
    } else if str_eq(s, Classification::Tactical.as_str()) {
        Ok(Classification::Tactical)
    } else if str_eq(s, Classification::Observational.as_str()) {
        Ok(Classification::Observational)
    } else {
        Err(invalid("Invalid classification: ", s))
    }
}

/// Reads the name of a tier; a text that names none stands for the
/// tactical tier.
pub fn classification_or_tactical(s: &str) -> (c: Classification)
    ensures
        c == match classification_named(s@) {
            Some(named) => named,
            None => Classification::Tactical,
        },
{
    match parse_classification(s) {
        Ok(c) => c,
        Err(_) => Classification::Tactical,
    }
}

/// Reads the name of an outcome status.
pub fn parse_outcome_status(s: &str) -> (r: Result<OutcomeStatus, MulchError>)
    ensures
        match r {
            Ok(status) => status_named(s@) == Some(status),
            Err(e) => status_named(s@) is None && (e matches MulchError::ValidationError(detail)
                && detail@ == "Invalid outcome status: "@ + s@),
        },
{
    if str_eq(s, OutcomeStatus::Success.as_str()) {
        Ok(OutcomeStatus::Success)
    } else if str_eq(s, OutcomeStatus::Failure.as_str()) {
        Ok(OutcomeStatus::Failure)
    } else if str_eq(s, OutcomeStatus::Partial.as_str()) {
        Ok(OutcomeStatus::Partial)
    } else {
        Err(invalid("Invalid outcome status: ", s))
    }
}

// ── Durations ──────────────────────────────────────────────────────────────

/// The value of a decimal digit.
pub open spec fn digit_value(c: char) -> Option<int> {
    if '0' <= c && c <= '9' {
        Some(c as int - '0' as int)
    } else {
        None
    }
}

/// The number that a run of decimal digits writes; nothing for an empty
/// run or one that holds anything but digits.
pub open spec fn digits_value(s: Seq<char>) -> Option<int>
    decreases s.len(),
{
    if s.len() == 0 {
        None
    } else {
        match digit_value(s.last()) {
            None => None,
            Some(d) => if s.len() == 1 {
                Some(d)
            } else {
                match digits_value(s.drop_last()) {
                    Some(v) => Some(v * 10 + d),
                    None => None,
                }
            },
        }
    }
}

/// The whole number that a numeral writes: digits, with a sign in front if
/// there is one.
pub open spec fn numeral_value(s: Seq<char>) -> Option<int> {
    if s.len() > 0 && s[0] == '-' {
        match digits_value(s.skip(1)) {
            Some(v) => Some(-v),
            None => None,
        }
    } else if s.len() > 0 && s[0] == '+' {
        digits_value(s.skip(1))
    } else {
        digits_value(s)
    }
}

/// The number of minutes in one unit of time: hours, days, weeks, minutes.
pub open spec fn unit_minutes(unit: char) -> Option<int> {
    if unit == 'h' {
        Some(60)
    } else if unit == 'd' {
        Some(1440)
    } else if unit == 'w' {
        Some(10080)
    } else if unit == 'm' {
        Some(1)
    } else {
        None
    }
}

/// The number fits a signed 64-bit integer.
pub open spec fn fits_i64(v: int) -> bool {
    i64::MIN <= v <= i64::MAX
}

/// What a text says as a duration: its last character is the unit, what
/// stands before it the number of units.
pub open spec fn duration_of(s: Seq<char>) -> Result<int, Seq<char>> {
    let t = trimmed(s);
    if t.len() == 0 {
        Err("Empty duration string"@)
    } else {
        let number = t.drop_last();
        match numeral_value(number) {
            Some(n) => if fits_i64(n) {
                match unit_minutes(t.last()) {
                    Some(per) => if fits_i64(n * per) {
                        Ok(n * per)
                    } else {
                        Err("Invalid duration number: \""@ + number + "\""@)
                    },
                    None => Err(
                        "Unknown duration unit \""@ + seq![t.last()]
                            + "\". Use h (hours), d (days), w (weeks), m (minutes)."@,
                    ),
                }
            } else {
                Err("Invalid duration number: \""@ + number + "\""@)
            },
            None => Err("Invalid duration number: \""@ + number + "\""@),
        }
    }
}

/// More digits never write a smaller number.
proof fn lemma_digits_grow(s: Seq<char>, n: int)
    requires
        0 < n <= s.len(),
        digits_value(s) is Some,
    ensures
        digits_value(s.take(n)) is Some,
        0 <= digits_value(s.take(n))->0 <= digits_value(s)->0,
    decreases s.len() - n,
{
    if n == s.len() {
        assert(s.take(n) =~= s);
        lemma_digits_nonnegative(s);
    } else {
        assert(s.drop_last().take(n) =~= s.take(n));
        lemma_digits_grow(s.drop_last(), n);
    }
}

/// Digits write a number that is not negative.
proof fn lemma_digits_nonnegative(s: Seq<char>)
    requires
        digits_value(s) is Some,
    ensures
        digits_value(s)->0 >= 0,
    decreases s.len(),
{
    if s.len() > 1 {
        lemma_digits_nonnegative(s.drop_last());
    }
}

/// The number that the digits `s[from..]` write, where it is at most
/// `limit`.
fn read_digits(s: &[char], from: usize, limit: i128) -> (r: Option<i128>)
    requires
        from <= s@.len(),
        0 <= limit <= i64::MAX + 1,
    ensures
        match r {
            Some(v) => digits_value(s@.skip(from as int)) == Some(v as int) && 0 <= v <= limit,
            None => match digits_value(s@.skip(from as int)) {
                Some(v) => v > limit,
                None => true,
            },
        },
{
    let ghost digits = s@.skip(from as int);
    if from == s.len() {
        return None;
    }
    let mut acc: i128 = 0;
    let mut i: usize = from;
    while i < s.len()
        invariant
            from <= i <= s@.len(),
            digits == s@.skip(from as int),
            0 <= acc <= limit <= i64::MAX + 1,
            i > from ==> digits_value(digits.take(i - from)) == Some(acc as int),
            i == from ==> acc == 0,
        decreases s.len() - i,
    {
        let c = s[i];
        proof {
            assert(digits.take(i - from + 1).drop_last() =~= digits.take(i - from));
            assert(digits.take(i - from + 1).last() == c);
        }
        if !('0' <= c && c <= '9') {
            proof {
                if digits_value(digits) is Some {
                    lemma_digits_grow(digits, i - from + 1);
                }
            }
            return None;
        }
        let d: i128 = (c as u32 - '0' as u32) as i128;
        let next: i128 = acc * 10 + d;
        if next > limit {
            proof {
                if digits_value(digits) is Some {
                    lemma_digits_grow(digits, i - from + 1);
                }
            }
            return None;
        }
        acc = next;
        i += 1;
    }
    assert(digits.take(digits.len() as int) =~= digits);
    Some(acc)
}

/// The whole number that a numeral writes, where it fits 64 bits.
fn read_numeral(s: &[char]) -> (r: Option<i64>)
    ensures
        match r {
            Some(v) => numeral_value(s@) == Some(v as int),
            None => match numeral_value(s@) {
                Some(v) => !fits_i64(v),
                None => true,
            },
        },
{
    if s.len() > 0 && s[0] == '-' {
        match read_digits(s, 1, 0x8000_0000_0000_0000) {
            Some(v) => Some((-v) as i64),
            None => None,
        }
    } else if s.len() > 0 && s[0] == '+' {
        match read_digits(s, 1, 0x7fff_ffff_ffff_ffff) {
            Some(v) => Some(v as i64),
            None => None,
        }
    } else {
        assert(s@.skip(0) =~= s@);
        match read_digits(s, 0, 0x7fff_ffff_ffff_ffff) {
            Some(v) => Some(v as i64),
            None => None,
        }
    }
}

/// Reads a duration such as `24h`, `7d`, `2w` or `90m`, in minutes.
pub fn parse_duration(s: &str) -> (r: Result<i64, MulchError>)
    ensures
        match r {
            Ok(minutes) => duration_of(s@) == Ok::<int, Seq<char>>(minutes as int),
            Err(e) => (e matches MulchError::ValidationError(detail) && duration_of(s@) == Err::<
                int,
                Seq<char>,
            >(detail@)),
        },
{
    let chars = chars_of(s);
    let (from, to) = trim_bounds(chars.as_slice());
    if from == to {
        return Err(MulchError::ValidationError("Empty duration string".to_owned()));
    }
    let mut body: Vec<char> = Vec::new();
    let mut i: usize = from;
    while i < to - 1
        invariant
            from <= i <= to - 1,
            to <= chars@.len(),
            body@ == chars@.subrange(from as int, i as int),
        decreases to - 1 - i,
    {
        body.push(chars[i]);
        assert(chars@.subrange(from as int, i + 1) =~= chars@.subrange(from as int, i as int).push(
            chars@[i as int],
        ));
        i += 1;
    }
    let unit = chars[to - 1];
    proof {
        let t = trimmed(s@);
        assert(t == chars@.subrange(from as int, to as int));
        assert(t.drop_last() =~= body@);
        assert(t.last() == unit);
    }
    let number = match read_numeral(body.as_slice()) {
        Some(n) => n,
        None => {
            return Err(invalid_number(body.as_slice()));
        },
    };
    let per: i128 = if unit == 'h' {
        60
    } else if unit == 'd' {
        1440
    } else if unit == 'w' {
        10080
    } else if unit == 'm' {
        1
    } else {
        let mut detail = String::new();
        detail.append("Unknown duration unit \"");
        crate::text::push_char(&mut detail, unit);
        detail.append("\". Use h (hours), d (days), w (weeks), m (minutes).");
        assert(detail@ =~= "Unknown duration unit \""@ + seq![unit]
            + "\". Use h (hours), d (days), w (weeks), m (minutes)."@);
        return Err(MulchError::ValidationError(detail));
    };
    let minutes: i128 = (number as i128) * per;
    if minutes < i64::MIN as i128 || minutes > i64::MAX as i128 {
        return Err(invalid_number(body.as_slice()));
    }
    Ok(minutes as i64)
}

fn invalid_number(number: &[char]) -> (e: MulchError)
    ensures
        e matches MulchError::ValidationError(detail) && detail@ == "Invalid duration number: \""@
            + number@ + "\""@,
{
    let mut detail = String::new();
    detail.append("Invalid duration number: \"");
    detail.append(string_of(number).as_str());
    detail.append("\"");
    MulchError::ValidationError(detail)
}

} // verus!
