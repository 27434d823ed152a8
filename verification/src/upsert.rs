//! Adding records to a domain without duplicating what is there.
//!
//! A record duplicates another of its kind when both agree in the field
//! that is unique for the kind. A duplicate of a kind with a name or title
//! replaces the record it duplicates; a duplicate of a kind that is matched
//! by its content is skipped. With `force` every record is added.

use crate::filter::{find_duplicate, is_duplicate_of};
use crate::types::ExpertiseRecord;
use vstd::prelude::*;

verus! {

/// What became of a record that was to be added.
#[derive(Debug, Clone, Copy, PartialEq, Eq, Structural)]
pub enum MergeAction {
    /// The record was appended.
    Created,
    /// The record replaced the record at this position.
    Updated(usize),
    /// The record was left out: it duplicates the record at this position.
    Skipped(usize),
}

/// How many records of a batch were appended, replaced another, or were left
/// out.
#[derive(Debug, Clone, Copy, PartialEq, Eq, Structural)]
pub struct MergeCounts {
    pub created: usize,
    pub updated: usize,
    pub skipped: usize,
}

/// `i` is the position of the first record that `record` duplicates.
pub open spec fn first_duplicate(records: Seq<ExpertiseRecord>, record: ExpertiseRecord, i: int) -> bool {
    &&& 0 <= i < records.len()
    &&& is_duplicate_of(records[i], record)
    &&& forall|j: int| 0 <= j < i ==> !is_duplicate_of(#[trigger] records[j], record)
}

/// `record` duplicates none of the records.
pub open spec fn is_new(records: Seq<ExpertiseRecord>, record: ExpertiseRecord) -> bool {
    forall|j: int| 0 <= j < records.len() ==> !is_duplicate_of(#[trigger] records[j], record)
}

/// Adding `record` to `before` gives `after`, by the stated action.
pub open spec fn is_merge(
    before: Seq<ExpertiseRecord>,
    record: ExpertiseRecord,
    force: bool,
    action: MergeAction,
    after: Seq<ExpertiseRecord>,
) -> bool {
    match action {
        MergeAction::Created => (force || is_new(before, record)) && after == before.push(record),
        MergeAction::Updated(i) => !force && first_duplicate(before, record, i as int)
            && record.spec_is_named_type() && after == before.update(i as int, record),
        MergeAction::Skipped(i) => !force && first_duplicate(before, record, i as int)
            && !record.spec_is_named_type() && after == before,
    }
}

/// Adds a record to the records of a domain: appends it, lets it replace
/// the record it duplicates, or leaves it out.
pub fn merge_record(records: &mut Vec<ExpertiseRecord>, record: ExpertiseRecord, force: bool) -> (action:
    MergeAction)
    ensures
        is_merge(old(records)@, record, force, action, final(records)@),
{
    let found: Option<usize> = if force {
        None
    } else {
        match find_duplicate(records.as_slice(), &record) {
            Some((i, _)) => Some(i),
            None => None,
        }
    };
    match found {
        Some(i) => {
            if record.is_named_type() {
                records.set(i, record);
                MergeAction::Updated(i)
            } else {
                MergeAction::Skipped(i)
            }
        },
        None => {
            records.push(record);
            MergeAction::Created
        },
    }
}

/// The records after a batch was added, one record after the other.
pub open spec fn merged(before: Seq<ExpertiseRecord>, batch: Seq<ExpertiseRecord>, force: bool) -> Seq<
    ExpertiseRecord,
>
    decreases batch.len(),
{
    if batch.len() == 0 {
        before
    } else {
        merge_one(merged(before, batch.drop_last(), force), batch.last(), force)
    }
}

/// The action by which `record` is added to `records`.
pub open spec fn action_for(records: Seq<ExpertiseRecord>, record: ExpertiseRecord, force: bool) -> MergeAction {
    if force || is_new(records, record) {
        MergeAction::Created
    } else {
        let i = choose|i: int| first_duplicate(records, record, i);
        if record.spec_is_named_type() {
            MergeAction::Updated(i as usize)
        } else {
            MergeAction::Skipped(i as usize)
        }
    }
}

/// The records after `record` was added.
pub open spec fn merge_one(records: Seq<ExpertiseRecord>, record: ExpertiseRecord, force: bool) -> Seq<
    ExpertiseRecord,
> {
    match action_for(records, record, force) {
        MergeAction::Created => records.push(record),
        MergeAction::Updated(i) => records.update(i as int, record),
        MergeAction::Skipped(_) => records,
    }
}

/// How often each action was taken while a batch was added.
pub open spec fn merge_counts(before: Seq<ExpertiseRecord>, batch: Seq<ExpertiseRecord>, force: bool) -> (
    nat,
    nat,
    nat,
)
    decreases batch.len(),
{
    if batch.len() == 0 {
        (0, 0, 0)
    } else {
        let so_far = merge_counts(before, batch.drop_last(), force);
        match action_for(merged(before, batch.drop_last(), force), batch.last(), force) {
            MergeAction::Created => (so_far.0 + 1, so_far.1, so_far.2),
            MergeAction::Updated(_) => (so_far.0, so_far.1 + 1, so_far.2),
            MergeAction::Skipped(_) => (so_far.0, so_far.1, so_far.2 + 1),
        }
    }
}

/// The first duplicate is at one position only, so what a merge does is
/// fixed by the records, the record and `force`.
pub proof fn lemma_merge_is_determined(
    before: Seq<ExpertiseRecord>,
    record: ExpertiseRecord,
    force: bool,
    action: MergeAction,
    after: Seq<ExpertiseRecord>,
)
    requires
        is_merge(before, record, force, action, after),
    ensures
        action == action_for(before, record, force),
        after == merge_one(before, record, force),
{
    match action {
        MergeAction::Created => {
            if !force {
                assert(is_new(before, record));
            }
        },
        MergeAction::Updated(i) => {
            assert(!is_new(before, record));
            let c = choose|c: int| first_duplicate(before, record, c);
            assert(first_duplicate(before, record, i as int));
            assert(c == i) by {
                if c < i {
                    assert(!is_duplicate_of(before[c], record));
                } else if i < c {
                    assert(!is_duplicate_of(before[i as int], record));
                }
            }
        },
        MergeAction::Skipped(i) => {
            assert(!is_new(before, record));
            let c = choose|c: int| first_duplicate(before, record, c);
            assert(first_duplicate(before, record, i as int));
            assert(c == i) by {
                if c < i {
                    assert(!is_duplicate_of(before[c], record));
                } else if i < c {
                    assert(!is_duplicate_of(before[i as int], record));
                }
            }
        },
    }
}

/// Adds a batch of records, one after the other, and counts what became of
/// them.
pub fn merge_records(records: &mut Vec<ExpertiseRecord>, batch: Vec<ExpertiseRecord>, force: bool) -> (counts:
    MergeCounts)
    ensures
        final(records)@ == merged(old(records)@, batch@, force),
        (counts.created as nat, counts.updated as nat, counts.skipped as nat) == merge_counts(
            old(records)@,
            batch@,
            force,
        ),
{
    let size = batch.len();
    let mut rest = batch;
    let mut queue: Vec<ExpertiseRecord> = Vec::new();
    while rest.len() > 0
        invariant
            rest@.len() + queue@.len() == batch@.len(),
            forall|i: int| 0 <= i < rest@.len() ==> #[trigger] rest@[i] == batch@[i],
            forall|j: int|
                0 <= j < queue@.len() ==> #[trigger] queue@[j] == batch@[batch@.len() - 1 - j],
        decreases rest@.len(),
    {
        let record = rest.pop().unwrap();
        queue.push(record);
    }
    let mut counts = MergeCounts { created: 0, updated: 0, skipped: 0 };
    let ghost mut done: int = 0;
    assert(batch@.take(0) =~= Seq::empty());
    while queue.len() > 0
        invariant
            0 <= done <= batch@.len() == size,
            done + queue@.len() == batch@.len(),
            forall|j: int|
                0 <= j < queue@.len() ==> #[trigger] queue@[j] == batch@[batch@.len() - 1 - j],
            records@ == merged(old(records)@, batch@.take(done), force),
            (counts.created as nat, counts.updated as nat, counts.skipped as nat) == merge_counts(
                old(records)@,
                batch@.take(done),
                force,
            ),
            counts.created + counts.updated + counts.skipped == done,
        decreases queue@.len(),
    {
        let record = queue.pop().unwrap();
        let ghost before = records@;
        proof {
            assert(record == batch@[done]);
            assert(batch@.take(done + 1).drop_last() =~= batch@.take(done));
            assert(batch@.take(done + 1).last() == batch@[done]);
        }
        let action = merge_record(records, record, force);
        proof {
            lemma_merge_is_determined(before, record, force, action, records@);
            done = done + 1;
        }
        match action {
            MergeAction::Created => {
                counts.created += 1;
            },
            MergeAction::Updated(_) => {
                counts.updated += 1;
            },
            MergeAction::Skipped(_) => {
                counts.skipped += 1;
            },
        }
    }
    assert(batch@.take(batch@.len() as int) =~= batch@);
    counts
}

} // verus!
