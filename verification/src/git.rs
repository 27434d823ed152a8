//! Relating records to the files that changed.

use crate::filter::{lemma_selected_step, selected, values};
use crate::text::{chars_of, ends_with, strs};
use crate::types::ExpertiseRecord;
use vstd::prelude::*;

verus! {

/// The two paths name the same file as far as can be told: one ends with
/// the other.
pub open spec fn paths_match(file: Seq<char>, changed: Seq<char>) -> bool {
    file.is_suffix_of(changed) || changed.is_suffix_of(file)
}

/// `file` matches one of the changed files.
pub open spec fn matches_any(file: Seq<char>, changed_files: Seq<Seq<char>>) -> bool {
    exists|i: int| 0 <= i < changed_files.len() && paths_match(file, #[trigger] changed_files[i])
}

/// Whether `file` is one of the changed files, or ends with one, or one
/// ends with it.
pub fn file_matches_any(file: &str, changed_files: &[String]) -> (r: bool)
    ensures
        r == matches_any(file@, strs(changed_files@)),
{
    let name = chars_of(file);
    let mut i: usize = 0;
    while i < changed_files.len()
        invariant
            i <= changed_files@.len(),
            name@ == file@,
            forall|j: int| 0 <= j < i ==> !paths_match(file@, #[trigger] strs(changed_files@)[j]),
        decreases changed_files.len() - i,
    {
        let changed = chars_of(changed_files[i].as_str());
        if ends_with(changed.as_slice(), name.as_slice()) || ends_with(
            name.as_slice(),
            changed.as_slice(),
        ) {
            assert(paths_match(file@, strs(changed_files@)[i as int]));
            return true;
        }
        i += 1;
    }
    false
}

/// One of the files matches a changed file.
pub open spec fn any_file_matches(files: Seq<Seq<char>>, changed_files: Seq<Seq<char>>) -> bool {
    exists|i: int| 0 <= i < files.len() && matches_any(#[trigger] files[i], changed_files)
}

/// The record is relevant to the changed files: it lists no files, or one
/// of its files matches a changed file.
pub open spec fn is_relevant(r: ExpertiseRecord, changed_files: Seq<Seq<char>>) -> bool {
    match r.spec_files() {
        Some(files) => files@.len() == 0 || any_file_matches(strs(files@), changed_files),
        None => true,
    }
}

fn any_matches(files: &[String], changed_files: &[String]) -> (r: bool)
    ensures
        r == any_file_matches(strs(files@), strs(changed_files@)),
{
    let mut i: usize = 0;
    while i < files.len()
        invariant
            i <= files@.len(),
            forall|j: int|
                0 <= j < i ==> !matches_any(#[trigger] strs(files@)[j], strs(changed_files@)),
        decreases files.len() - i,
    {
        if file_matches_any(files[i].as_str(), changed_files) {
            assert(matches_any(strs(files@)[i as int], strs(changed_files@)));
            return true;
        }
        i += 1;
    }
    false
}

/// The records that are relevant to the changed files. A record that lists
/// no files is always relevant.
pub fn filter_by_context<'a>(records: &'a [ExpertiseRecord], changed_files: &[String]) -> (out:
    Vec<&'a ExpertiseRecord>)
    ensures
        values(out@) == selected(
            records@,
            |r: ExpertiseRecord| is_relevant(r, strs(changed_files@)),
        ),
{
    let ghost keep = |r: ExpertiseRecord| is_relevant(r, strs(changed_files@));
    let mut out: Vec<&ExpertiseRecord> = Vec::new();
    let mut i: usize = 0;
    assert(records@.take(0) =~= Seq::empty());
    assert(values(out@) =~= Seq::empty());
    while i < records.len()
        invariant
            i <= records@.len(),
            keep == |r: ExpertiseRecord| is_relevant(r, strs(changed_files@)),
            values(out@) == selected(records@.take(i as int), keep),
        decreases records.len() - i,
    {
        proof {
            lemma_selected_step(records@, keep, i as int);
        }
        let relevant = match records[i].files() {
            Some(files) => files.len() == 0 || any_matches(files, changed_files),
            None => true,
        };
        assert(relevant == is_relevant(records@[i as int], strs(changed_files@)));
        if relevant {
            let ghost before = out@;
            out.push(&records[i]);
            assert(values(out@) =~= values(before).push(records@[i as int]));
        }
        i += 1;
    }
    assert(records@.take(records@.len() as int) =~= records@);
    out
}

} // verus!
