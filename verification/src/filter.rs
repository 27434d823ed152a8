//! Selecting records by kind, tier or file, and finding duplicates.

use crate::text::{
    chars_of, contains, has_substring, lowercase_text, str_eq, str_to_lowercase, strs,
};
use crate::types::{Classification, ExpertiseRecord, RecordType};
use vstd::prelude::*;

verus! {

/// The records that `keep` holds of, in the order in which they were given.
pub open spec fn selected(
    records: Seq<ExpertiseRecord>,
    keep: spec_fn(ExpertiseRecord) -> bool,
) -> Seq<ExpertiseRecord>
    decreases records.len(),
{
    if records.len() == 0 {
        Seq::empty()
    } else if keep(records.last()) {
        selected(records.drop_last(), keep).push(records.last())
    } else {
        selected(records.drop_last(), keep)
    }
}

/// The records behind a list of references.
pub open spec fn values(refs: Seq<&ExpertiseRecord>) -> Seq<ExpertiseRecord> {
    Seq::new(refs.len(), |i: int| *refs[i])
}

/// One more record was looked at: it is appended if `keep` holds of it.
pub proof fn lemma_selected_step(
    records: Seq<ExpertiseRecord>,
    keep: spec_fn(ExpertiseRecord) -> bool,
    i: int,
)
    requires
        0 <= i < records.len(),
    ensures
        selected(records.take(i + 1), keep) == if keep(records[i]) {
            selected(records.take(i), keep).push(records[i])
        } else {
            selected(records.take(i), keep)
        },
{
    assert(records.take(i + 1).drop_last() =~= records.take(i));
    assert(records.take(i + 1).last() == records[i]);
}

/// The records of the given kind.
pub fn filter_by_type(records: &[ExpertiseRecord], record_type: RecordType) -> (out: Vec<
    &ExpertiseRecord,
>)
    ensures
        values(out@) == selected(records@, |r: ExpertiseRecord| r.kind() == record_type),
{
    let ghost keep = |r: ExpertiseRecord| r.kind() == record_type;
    let mut out: Vec<&ExpertiseRecord> = Vec::new();
    let mut i: usize = 0;
    assert(records@.take(0) =~= Seq::empty());
    assert(values(out@) =~= Seq::empty());
    while i < records.len()
        invariant
            i <= records@.len(),
            keep == |r: ExpertiseRecord| r.kind() == record_type,
            values(out@) == selected(records@.take(i as int), keep),
        decreases records.len() - i,
    {
        proof {
            lemma_selected_step(records@, keep, i as int);
        }
        if records[i].record_type() == record_type {
            let ghost before = out@;
            out.push(&records[i]);
            assert(values(out@) =~= values(before).push(records@[i as int]));
        }
        i += 1;
    }
    assert(records@.take(records@.len() as int) =~= records@);
    out
}

/// The records of the given tier.
pub fn filter_by_classification(
    records: &[ExpertiseRecord],
    classification: Classification,
) -> (out: Vec<&ExpertiseRecord>)
    ensures
        values(out@) == selected(
            records@,
            |r: ExpertiseRecord| r.spec_classification() == classification,
        ),
{
    let ghost keep = |r: ExpertiseRecord| r.spec_classification() == classification;
    let mut out: Vec<&ExpertiseRecord> = Vec::new();
    let mut i: usize = 0;
    assert(records@.take(0) =~= Seq::empty());
    assert(values(out@) =~= Seq::empty());
    while i < records.len()
        invariant
            i <= records@.len(),
            keep == |r: ExpertiseRecord| r.spec_classification() == classification,
            values(out@) == selected(records@.take(i as int), keep),
        decreases records.len() - i,
    {
        proof {
            lemma_selected_step(records@, keep, i as int);
        }
        if records[i].classification() == classification {
            let ghost before = out@;
            out.push(&records[i]);
            assert(values(out@) =~= values(before).push(records@[i as int]));
        }
        i += 1;
    }
    assert(records@.take(records@.len() as int) =~= records@);
    out
}

/// One of the names contains `needle`, case being ignored: the lower-case
/// form of the name contains the lower-case form of `needle`.
pub open spec fn any_name_contains(names: Seq<Seq<char>>, needle: Seq<char>) -> bool {
    exists|i: int|
        0 <= i < names.len() && has_substring(
            lowercase_text(#[trigger] names[i]),
            lowercase_text(needle),
        )
}

/// The record lists a file whose path contains `file`, case being ignored.
pub open spec fn mentions_file(r: ExpertiseRecord, file: Seq<char>) -> bool {
    r.spec_files() matches Some(files) && any_name_contains(strs(files@), file)
}

fn any_contains(names: &[String], needle_lower: &[char], Ghost(needle): Ghost<Seq<char>>) -> (r: bool)
    requires
        needle_lower@ == lowercase_text(needle),
    ensures
        r == any_name_contains(strs(names@), needle),
{
    let mut i: usize = 0;
    while i < names.len()
        invariant
            i <= names@.len(),
            needle_lower@ == lowercase_text(needle),
            forall|j: int|
                0 <= j < i ==> !has_substring(
                    lowercase_text(#[trigger] strs(names@)[j]),
                    lowercase_text(needle),
                ),
        decreases names.len() - i,
    {
        let lower = str_to_lowercase(names[i].as_str());
        let chars = chars_of(lower.as_str());
        if contains(chars.as_slice(), needle_lower) {
            assert(has_substring(lowercase_text(strs(names@)[i as int]), lowercase_text(needle)));
            return true;
        }
        i += 1;
    }
    false
}

/// The records that list a file whose path contains `file`, case being
/// ignored.
pub fn filter_by_file<'a>(records: &'a [ExpertiseRecord], file: &str) -> (out: Vec<
    &'a ExpertiseRecord,
>)
    ensures
        values(out@) == selected(records@, |r: ExpertiseRecord| mentions_file(r, file@)),
{
    let ghost keep = |r: ExpertiseRecord| mentions_file(r, file@);
    let lower = str_to_lowercase(file);
    let needle = chars_of(lower.as_str());
    let mut out: Vec<&ExpertiseRecord> = Vec::new();
    let mut i: usize = 0;
    assert(records@.take(0) =~= Seq::empty());
    assert(values(out@) =~= Seq::empty());
    while i < records.len()
        invariant
            i <= records@.len(),
            keep == |r: ExpertiseRecord| mentions_file(r, file@),
            needle@ == lowercase_text(file@),
            values(out@) == selected(records@.take(i as int), keep),
        decreases records.len() - i,
    {
        proof {
            lemma_selected_step(records@, keep, i as int);
        }
        let hit = match records[i].files() {
            Some(files) => any_contains(files, needle.as_slice(), Ghost(file@)),
            None => false,
        };
        assert(hit == mentions_file(records@[i as int], file@));
        if hit {
            let ghost before = out@;
            out.push(&records[i]);
            assert(values(out@) =~= values(before).push(records@[i as int]));
        }
        i += 1;
    }
    assert(records@.take(records@.len() as int) =~= records@);
    out
}

/// The two records are of the same kind and agree in the field that is
/// unique among records of that kind.
pub open spec fn is_duplicate_of(a: ExpertiseRecord, b: ExpertiseRecord) -> bool {
    a.kind() == b.kind() && a.unique_key() == b.unique_key()
}

/// The first record among `existing` that `new_record` duplicates, with its
/// position.
pub fn find_duplicate<'a>(existing: &'a [ExpertiseRecord], new_record: &ExpertiseRecord) -> (r:
    Option<(usize, &'a ExpertiseRecord)>)
    ensures
        match r {
            Some((i, record)) => {
                &&& i < existing@.len()
                &&& *record == existing@[i as int]
                &&& is_duplicate_of(existing@[i as int], *new_record)
                &&& forall|j: int|
                    0 <= j < i ==> !is_duplicate_of(#[trigger] existing@[j], *new_record)
            },
            None => forall|j: int|
                0 <= j < existing@.len() ==> !is_duplicate_of(#[trigger] existing@[j], *new_record),
        },
{
    let mut i: usize = 0;
    while i < existing.len()
        invariant
            i <= existing@.len(),
            forall|j: int| 0 <= j < i ==> !is_duplicate_of(#[trigger] existing@[j], *new_record),
        decreases existing.len() - i,
    {
        if existing[i].record_type() == new_record.record_type() && str_eq(
            existing[i].key_text(),
            new_record.key_text(),
        ) {
            return Some((i, &existing[i]));
        }
        i += 1;
    }
    None
}

} // verus!
