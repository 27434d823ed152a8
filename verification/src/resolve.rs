//! Resolving a short identifier to one record.
//!
//! An identifier may be a full ID, the hash part of one, or a prefix of
//! either. It names a record if it is the record's ID or, where no record
//! has it as its ID, if exactly one record's ID begins with it.

use crate::error::MulchError;
use crate::text::{chars_eq, chars_of, join, joined, starts_with, strs};
use crate::types::ExpertiseRecord;
use vstd::prelude::*;

verus! {

/// The prefix that every record ID begins with.
pub open spec fn id_prefix() -> Seq<char> {
    "mx-"@
}

/// The identifier as a full ID or the beginning of one: with the ID prefix
/// in front, unless it already has it.
pub open spec fn normalized_id(identifier: Seq<char>) -> Seq<char> {
    if id_prefix().is_prefix_of(identifier) {
        identifier
    } else {
        id_prefix() + identifier
    }
}

/// The record has exactly the ID `full`.
pub open spec fn has_id(r: ExpertiseRecord, full: Seq<char>) -> bool {
    r.id_view() == Some(full)
}

/// The record has an ID that begins with `full`.
pub open spec fn id_starts_with(r: ExpertiseRecord, full: Seq<char>) -> bool {
    r.id_view() matches Some(id) && full.is_prefix_of(id)
}

/// The positions of the records whose ID begins with `full`, ascending.
pub open spec fn prefix_matches(records: Seq<ExpertiseRecord>, full: Seq<char>) -> Seq<usize>
    decreases records.len(),
{
    if records.len() == 0 {
        Seq::empty()
    } else if id_starts_with(records.last(), full) {
        prefix_matches(records.drop_last(), full).push((records.len() - 1) as usize)
    } else {
        prefix_matches(records.drop_last(), full)
    }
}

/// The IDs of the records at the given positions.
pub open spec fn ids_at(records: Seq<ExpertiseRecord>, positions: Seq<usize>) -> Seq<Seq<char>> {
    Seq::new(positions.len(), |p: int| records[positions[p] as int].id_view()->0)
}

/// `i` is the first position of a record with exactly the ID `full`.
pub open spec fn is_first_exact(records: Seq<ExpertiseRecord>, full: Seq<char>, i: int) -> bool {
    &&& 0 <= i < records.len()
    &&& has_id(records[i], full)
    &&& forall|j: int| 0 <= j < i ==> !has_id(#[trigger] records[j], full)
}

/// No record has exactly the ID `full`.
pub open spec fn no_exact(records: Seq<ExpertiseRecord>, full: Seq<char>) -> bool {
    forall|j: int| 0 <= j < records.len() ==> !has_id(#[trigger] records[j], full)
}

/// What resolving `identifier` among `records` gives.
pub open spec fn resolution_is(
    records: Seq<ExpertiseRecord>,
    identifier: Seq<char>,
    result: Result<(usize, &ExpertiseRecord), MulchError>,
) -> bool {
    let full = normalized_id(identifier);
    let matches = prefix_matches(records, full);
    match result {
        Ok((i, record)) => {
            &&& i < records.len()
            &&& *record == records[i as int]
            &&& is_first_exact(records, full, i as int) || (no_exact(records, full) && matches
                == seq![i])
        },
        Err(MulchError::RecordNotFound(id)) => {
            &&& id@ == identifier
            &&& no_exact(records, full)
            &&& matches.len() == 0
        },
        Err(MulchError::AmbiguousId { id, count, ids }) => {
            &&& id@ == identifier
            &&& no_exact(records, full)
            &&& matches.len() >= 2
            &&& count == matches.len()
            &&& ids@ == joined(ids_at(records, matches), ", "@)
        },
        Err(_) => false,
    }
}

fn find_matches(records: &[ExpertiseRecord], full: &[char]) -> (found: Vec<usize>)
    ensures
        found@ == prefix_matches(records@, full@),
        forall|p: int|
            0 <= p < found@.len() ==> (#[trigger] found@[p]) < records@.len() && id_starts_with(
                records@[found@[p] as int],
                full@,
            ),
{
    let mut found: Vec<usize> = Vec::new();
    let mut i: usize = 0;
    assert(records@.take(0) =~= Seq::empty());
    while i < records.len()
        invariant
            i <= records@.len(),
            found@ == prefix_matches(records@.take(i as int), full@),
            forall|p: int|
                0 <= p < found@.len() ==> (#[trigger] found@[p]) < i && id_starts_with(
                    records@[found@[p] as int],
                    full@,
                ),
        decreases records.len() - i,
    {
        proof {
            assert(records@.take(i + 1).drop_last() =~= records@.take(i as int));
            assert(records@.take(i + 1).last() == records@[i as int]);
        }
        let matches = match records[i].id() {
            Some(id) => {
                let chars = chars_of(id);
                starts_with(chars.as_slice(), full)
            },
            None => false,
        };
        if matches {
            found.push(i);
        }
        i += 1;
    }
    assert(records@.take(records@.len() as int) =~= records@);
    found
}

/// Resolves an identifier to the one record it names. A record whose ID is
/// the identifier wins; else the identifier must begin the ID of exactly one
/// record. `RecordNotFound` where it begins none, `AmbiguousId` with the
/// number and the IDs of the candidates where it begins several.
pub fn resolve_record_id<'a>(records: &'a [ExpertiseRecord], identifier: &str) -> (result: Result<
    (usize, &'a ExpertiseRecord),
    MulchError,
>)
    ensures
        resolution_is(records@, identifier@, result),
{
    let given = chars_of(identifier);
    let prefix = chars_of("mx-");
    let full: Vec<char> = if starts_with(given.as_slice(), prefix.as_slice()) {
        given
    } else {
        let mut full = prefix;
        let mut k: usize = 0;
        while k < given.len()
            invariant
                k <= given@.len(),
                full@ == id_prefix() + given@.take(k as int),
            decreases given.len() - k,
        {
            full.push(given[k]);
            assert(given@.take(k + 1) =~= given@.take(k as int).push(given@[k as int]));
            assert(full@ =~= id_prefix() + given@.take(k + 1));
            k += 1;
        }
        assert(given@.take(given@.len() as int) =~= given@);
        full
    };
    assert(full@ == normalized_id(identifier@));
    let mut i: usize = 0;
    while i < records.len()
        invariant
            i <= records@.len(),
            full@ == normalized_id(identifier@),
            forall|j: int| 0 <= j < i ==> !has_id(#[trigger] records@[j], full@),
        decreases records.len() - i,
    {
        let exact = match records[i].id() {
            Some(id) => {
                let chars = chars_of(id);
                chars_eq(chars.as_slice(), full.as_slice())
            },
            None => false,
        };
        assert(exact == has_id(records@[i as int], full@));
        if exact {
            return Ok((i, &records[i]));
        }
        i += 1;
    }
    let found = find_matches(records, full.as_slice());
    if found.len() == 1 {
        assert(found@ =~= seq![found@[0]]);
        Ok((found[0], &records[found[0]]))
    } else if found.len() == 0 {
        Err(MulchError::RecordNotFound(identifier.to_owned()))
    } else {
        let mut ids: Vec<String> = Vec::new();
        let mut p: usize = 0;
        while p < found.len()
            invariant
                p <= found@.len(),
                full@ == normalized_id(identifier@),
                found@ == prefix_matches(records@, full@),
                no_exact(records@, full@),
                forall|q: int|
                    0 <= q < found@.len() ==> (#[trigger] found@[q]) < records@.len()
                        && id_starts_with(records@[found@[q] as int], full@),
                ids@.len() == p,
                forall|q: int|
                    0 <= q < p ==> (#[trigger] ids@[q])@ == records@[found@[q] as int].id_view()->0,
            decreases found.len() - p,
        {
            match records[found[p]].id() {
                Some(id) => {
                    ids.push(id.to_owned());
                },
                None => {
                    assert(false);
                },
            }
            p += 1;
        }
        assert(strs(ids@) =~= ids_at(records@, found@));
        Err(
            MulchError::AmbiguousId {
                id: identifier.to_owned(),
                count: found.len(),
                ids: join(ids.as_slice(), ", "),
            },
        )
    }
}

} // verus!
