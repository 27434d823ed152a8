//! Confirmation scoring: how often a record was applied, and how well.
//!
//! Scores are exact. A confirmation score is counted in half points, so that
//! a partial success, worth half a success, stays an integer.

use crate::order::{is_stable_order, stable_order, SortKey};
use crate::types::{ExpertiseRecord, Outcome, OutcomeStatus};
use vstd::prelude::*;

verus! {

/// Number of outcomes in `outcomes` with the status `status`.
pub open spec fn count_status(outcomes: Seq<Outcome>, status: OutcomeStatus) -> nat
    decreases outcomes.len(),
{
    if outcomes.len() == 0 {
        0
    } else {
        count_status(outcomes.drop_last(), status) + if outcomes.last().status == status {
            1nat
        } else {
            0nat
        }
    }
}

/// The confirmation score of an outcome history, in half points: two for
/// each success, one for each partial success.
pub open spec fn score_halves(outcomes: Seq<Outcome>) -> nat {
    2 * count_status(outcomes, OutcomeStatus::Success) + count_status(
        outcomes,
        OutcomeStatus::Partial,
    )
}

/// No status is counted more often than there are outcomes, and the three
/// counts add up to the number of outcomes.
pub proof fn lemma_counts_partition(outcomes: Seq<Outcome>)
    ensures
        count_status(outcomes, OutcomeStatus::Success) + count_status(
            outcomes,
            OutcomeStatus::Failure,
        ) + count_status(outcomes, OutcomeStatus::Partial) == outcomes.len(),
    decreases outcomes.len(),
{
    if outcomes.len() > 0 {
        lemma_counts_partition(outcomes.drop_last());
    }
}

/// A fraction `num / den` with a positive denominator.
#[derive(Debug, Clone, Copy, PartialEq, Eq, Structural)]
pub struct Ratio {
    pub num: u128,
    pub den: u128,
}

fn count_outcomes(outcomes: &[Outcome], status: OutcomeStatus) -> (n: usize)
    ensures
        n == count_status(outcomes@, status),
{
    let mut n: usize = 0;
    let mut i: usize = 0;
    while i < outcomes.len()
        invariant
            i <= outcomes@.len(),
            n == count_status(outcomes@.take(i as int), status),
            n <= i,
        decreases outcomes.len() - i,
    {
        proof {
            assert(outcomes@.take(i + 1).drop_last() =~= outcomes@.take(i as int));
        }
        if outcomes[i].status == status {
            n += 1;
        }
        i += 1;
    }
    assert(outcomes@.take(outcomes@.len() as int) =~= outcomes@);
    n
}

fn count_in_record(record: &ExpertiseRecord, status: OutcomeStatus) -> (n: usize)
    ensures
        n == count_status(record.outcome_seq(), status),
{
    match record.outcomes() {
        Some(outcomes) => count_outcomes(outcomes, status),
        None => 0,
    }
}

/// Number of successful applications.
pub fn get_success_count(record: &ExpertiseRecord) -> (n: usize)
    ensures
        n == count_status(record.outcome_seq(), OutcomeStatus::Success),
{
    count_in_record(record, OutcomeStatus::Success)
}

/// Number of failed applications.
pub fn get_failure_count(record: &ExpertiseRecord) -> (n: usize)
    ensures
        n == count_status(record.outcome_seq(), OutcomeStatus::Failure),
{
    count_in_record(record, OutcomeStatus::Failure)
}

/// Number of recorded applications.
pub fn get_total_applications(record: &ExpertiseRecord) -> (n: usize)
    ensures
        n == record.outcome_seq().len(),
{
    match record.outcomes() {
        Some(outcomes) => outcomes.len(),
        None => 0,
    }
}

/// The confirmation score in half points: twice the number of successes plus
/// the number of partial successes. Zero without outcomes.
pub fn compute_confirmation_score(record: &ExpertiseRecord) -> (halves: u128)
    ensures
        halves == score_halves(record.outcome_seq()),
        record.outcome_seq().len() == 0 ==> halves == 0,
        halves <= 2 * usize::MAX,
{
    proof {
        lemma_counts_partition(record.outcome_seq());
    }
    let total = get_total_applications(record);
    let success = count_in_record(record, OutcomeStatus::Success);
    let partial = count_in_record(record, OutcomeStatus::Partial);
    2 * (success as u128) + (partial as u128)
}

/// The success rate as a fraction between zero and one: half points scored
/// over half points possible. Zero, as `0 / 1`, without outcomes.
pub fn get_success_rate(record: &ExpertiseRecord) -> (rate: Ratio)
    ensures
        rate.den > 0,
        rate.num <= rate.den,
        record.outcome_seq().len() == 0 ==> rate.num == 0 && rate.den == 1,
        record.outcome_seq().len() > 0 ==> rate.num == score_halves(record.outcome_seq())
            && rate.den == 2 * record.outcome_seq().len(),
{
    let total = get_total_applications(record);
    if total == 0 {
        return Ratio { num: 0, den: 1 };
    }
    proof {
        lemma_counts_partition(record.outcome_seq());
    }
    Ratio { num: compute_confirmation_score(record), den: 2 * (total as u128) }
}

/// The keys by which records are put in order of their confirmation score,
/// the highest first.
pub open spec fn score_keys(records: Seq<&ExpertiseRecord>) -> Seq<SortKey> {
    Seq::new(
        records.len(),
        |i: int|
            SortKey {
                first: (-(score_halves(records[i].outcome_seq()) as int)) as i128,
                second: 0,
                third: 0,
                fourth: 0,
            },
    )
}

/// `after` holds the records of `before` in the order of their confirmation
/// score, the highest first; records with the same score stay in the order
/// in which they were.
pub open spec fn is_sorted_by_score(before: Seq<&ExpertiseRecord>, after: Seq<&ExpertiseRecord>) -> bool {
    exists|order: Seq<usize>| #[trigger]
        is_stable_order(score_keys(before), order) && after == Seq::new(
            before.len(),
            |p: int| before[order[p] as int],
        )
}

/// Puts the records in the order of their confirmation score, the highest
/// first. The order is stable.
pub fn sort_by_confirmation_score(records: &mut Vec<&ExpertiseRecord>)
    ensures
        is_sorted_by_score(old(records)@, final(records)@),
{
    let mut keys: Vec<SortKey> = Vec::new();
    let mut i: usize = 0;
    while i < records.len()
        invariant
            i <= records@.len(),
            records@ == old(records)@,
            keys@.len() == i,
            forall|h: int| 0 <= h < i ==> #[trigger] keys@[h] == score_keys(records@)[h],
        decreases records.len() - i,
    {
        let halves = compute_confirmation_score(records[i]);
        keys.push(SortKey { first: -(halves as i128), second: 0, third: 0, fourth: 0 });
        i += 1;
    }
    assert(keys@ =~= score_keys(records@));
    let order = stable_order(keys.as_slice());
    let mut sorted: Vec<&ExpertiseRecord> = Vec::new();
    let mut p: usize = 0;
    while p < order.len()
        invariant
            p <= order@.len(),
            records@ == old(records)@,
            is_stable_order(score_keys(records@), order@),
            sorted@.len() == p,
            forall|q: int| 0 <= q < p ==> #[trigger] sorted@[q] == records@[order@[q] as int],
        decreases order.len() - p,
    {
        sorted.push(records[order[p]]);
        p += 1;
    }
    assert(sorted@ =~= Seq::new(records@.len(), |q: int| records@[order@[q] as int]));
    *records = sorted;
}

} // verus!
