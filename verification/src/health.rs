//! The state of a domain: how full it is, how much of it is stale, what it
//! is made of.

use crate::text::{chars_less, chars_of, lemma_text_lt_transitive, text_lt};
use crate::timestamp::{parse_rfc3339_millis, rfc3339_millis};
use crate::types::{Classification, ExpertiseRecord, RecordType, ShelfLife};
use vstd::prelude::*;

verus! {

/// Milliseconds in a day.
pub const MILLIS_PER_DAY: i64 = 86_400_000;

/// How many records there are of each kind.
#[derive(Debug, Clone, Copy, PartialEq, Eq, Structural)]
pub struct TypeCounts {
    pub convention: usize,
    pub pattern: usize,
    pub failure: usize,
    pub decision: usize,
    pub reference: usize,
    pub guide: usize,
}

/// How many records there are of each tier.
#[derive(Debug, Clone, Copy, PartialEq, Eq, Structural)]
pub struct ClassificationCounts {
    pub foundational: usize,
    pub tactical: usize,
    pub observational: usize,
}

/// The measures of a domain.
#[derive(Debug)]
pub struct DomainHealth {
    /// Number of records as a percentage of the limit, rounded.
    pub governance_utilization: u32,
    pub stale_count: usize,
    pub type_distribution: TypeCounts,
    pub classification_distribution: ClassificationCounts,
    pub oldest_timestamp: Option<String>,
    pub newest_timestamp: Option<String>,
}

// ── Staleness ──────────────────────────────────────────────────────────────

/// The number of days a record of the given tier stays fresh; none for the
/// tier that never expires.
pub open spec fn shelf_days(classification: Classification, shelf_life: ShelfLife) -> Option<int> {
    match classification {
        Classification::Foundational => None,
        Classification::Tactical => Some(shelf_life.tactical as int),
        Classification::Observational => Some(shelf_life.observational as int),
    }
}

/// The record is stale at the instant `now_millis`: its tier expires, its
/// time of recording can be read, and more whole days have passed since
/// then than the tier allows.
pub open spec fn is_stale(r: ExpertiseRecord, now_millis: i64, shelf_life: ShelfLife) -> bool {
    match (shelf_days(r.spec_classification(), shelf_life), rfc3339_millis(r.spec_recorded_at()@)) {
        (Some(days), Some(recorded)) => now_millis - recorded >= (days + 1) * MILLIS_PER_DAY,
        _ => false,
    }
}

/// Whether the record is stale at `now_millis`, an instant in milliseconds
/// since the Unix epoch.
pub fn is_record_stale(record: &ExpertiseRecord, now_millis: i64, shelf_life: &ShelfLife) -> (r:
    bool)
    ensures
        r == is_stale(*record, now_millis, *shelf_life),
{
    let days: u32 = match record.classification() {
        Classification::Foundational => {
            return false;
        },
        Classification::Tactical => shelf_life.tactical,
        Classification::Observational => shelf_life.observational,
    };
    match parse_rfc3339_millis(record.recorded_at()) {
        Some(recorded) => {
            let age: i128 = now_millis as i128 - recorded as i128;
            let limit: i128 = (days as i128 + 1) * 86_400_000;
            age >= limit
        },
        None => false,
    }
}

// ── Counts ─────────────────────────────────────────────────────────────────

/// Number of records of the kind.
pub open spec fn count_kind(records: Seq<ExpertiseRecord>, kind: RecordType) -> nat
    decreases records.len(),
{
    if records.len() == 0 {
        0
    } else {
        count_kind(records.drop_last(), kind) + if records.last().kind() == kind {
            1nat
        } else {
            0nat
        }
    }
}

/// Number of records of the tier.
pub open spec fn count_tier(records: Seq<ExpertiseRecord>, tier: Classification) -> nat
    decreases records.len(),
{
    if records.len() == 0 {
        0
    } else {
        count_tier(records.drop_last(), tier) + if records.last().spec_classification() == tier {
            1nat
        } else {
            0nat
        }
    }
}

/// Number of stale records.
pub open spec fn count_stale(records: Seq<ExpertiseRecord>, now_millis: i64, shelf_life: ShelfLife) -> nat
    decreases records.len(),
{
    if records.len() == 0 {
        0
    } else {
        count_stale(records.drop_last(), now_millis, shelf_life) + if is_stale(
            records.last(),
            now_millis,
            shelf_life,
        ) {
            1nat
        } else {
            0nat
        }
    }
}

/// The counts by kind.
pub open spec fn type_counts_of(records: Seq<ExpertiseRecord>) -> TypeCounts {
    TypeCounts {
        convention: count_kind(records, RecordType::Convention) as usize,
        pattern: count_kind(records, RecordType::Pattern) as usize,
        failure: count_kind(records, RecordType::Failure) as usize,
        decision: count_kind(records, RecordType::Decision) as usize,
        reference: count_kind(records, RecordType::Reference) as usize,
        guide: count_kind(records, RecordType::Guide) as usize,
    }
}

/// The counts by tier.
pub open spec fn tier_counts_of(records: Seq<ExpertiseRecord>) -> ClassificationCounts {
    ClassificationCounts {
        foundational: count_tier(records, Classification::Foundational) as usize,
        tactical: count_tier(records, Classification::Tactical) as usize,
        observational: count_tier(records, Classification::Observational) as usize,
    }
}

/// No count exceeds the number of records.
pub proof fn lemma_counts_bounded(
    records: Seq<ExpertiseRecord>,
    kind: RecordType,
    tier: Classification,
    now_millis: i64,
    shelf_life: ShelfLife,
)
    ensures
        count_kind(records, kind) <= records.len(),
        count_tier(records, tier) <= records.len(),
        count_stale(records, now_millis, shelf_life) <= records.len(),
    decreases records.len(),
{
    if records.len() > 0 {
        lemma_counts_bounded(records.drop_last(), kind, tier, now_millis, shelf_life);
    }
}

/// The number of records as a percentage of the limit, rounded to the
/// nearest whole number, halves upwards; zero where there is no limit, and
/// no more than fits the result.
pub open spec fn utilization(count: nat, max_entries: u32) -> int {
    if max_entries == 0 {
        0
    } else {
        let rounded = (200 * count + max_entries) / (2 * max_entries as int);
        if rounded > u32::MAX {
            u32::MAX as int
        } else {
            rounded
        }
    }
}

// ── Oldest and newest ──────────────────────────────────────────────────────

/// `t` is the time of recording of one of the records, and none has one
/// that comes before it in the order of strings.
pub open spec fn is_earliest(records: Seq<ExpertiseRecord>, t: Seq<char>) -> bool {
    &&& exists|i: int| 0 <= i < records.len() && (#[trigger] records[i]).spec_recorded_at()@ == t
    &&& forall|j: int|
        0 <= j < records.len() ==> !text_lt((#[trigger] records[j]).spec_recorded_at()@, t)
}

/// `t` is the time of recording of one of the records, and none has one
/// that comes after it in the order of strings.
pub open spec fn is_latest(records: Seq<ExpertiseRecord>, t: Seq<char>) -> bool {
    &&& exists|i: int| 0 <= i < records.len() && (#[trigger] records[i]).spec_recorded_at()@ == t
    &&& forall|j: int|
        0 <= j < records.len() ==> !text_lt(t, (#[trigger] records[j]).spec_recorded_at()@)
}

/// `o` is the bound of the times of recording that `pick` describes;
/// nothing where there are no records.
pub open spec fn is_bound(
    records: Seq<ExpertiseRecord>,
    o: Option<String>,
    earliest: bool,
) -> bool {
    match o {
        Some(t) => if earliest {
            is_earliest(records, t@)
        } else {
            is_latest(records, t@)
        },
        None => records.len() == 0,
    }
}

fn timestamp_bound(records: &[ExpertiseRecord], earliest: bool) -> (o: Option<String>)
    ensures
        is_bound(records@, o, earliest),
{
    if records.len() == 0 {
        return None;
    }
    let mut best: usize = 0;
    let mut best_chars = chars_of(records[0].recorded_at());
    let mut i: usize = 1;
    proof {
        crate::text::lemma_text_lt_irreflexive(best_chars@);
    }
    while i < records.len()
        invariant
            1 <= i <= records@.len(),
            best < i,
            best_chars@ == records@[best as int].spec_recorded_at()@,
            earliest ==> forall|j: int|
                0 <= j < i ==> !text_lt((#[trigger] records@[j]).spec_recorded_at()@, best_chars@),
            !earliest ==> forall|j: int|
                0 <= j < i ==> !text_lt(best_chars@, (#[trigger] records@[j]).spec_recorded_at()@),
        decreases records.len() - i,
    {
        let chars = chars_of(records[i].recorded_at());
        let better = if earliest {
            chars_less(chars.as_slice(), best_chars.as_slice())
        } else {
            chars_less(best_chars.as_slice(), chars.as_slice())
        };
        if better {
            proof {
                let old_best = best_chars@;
                assert forall|j: int| 0 <= j < i + 1 implies (if earliest {
                    !text_lt((#[trigger] records@[j]).spec_recorded_at()@, chars@)
                } else {
                    !text_lt(chars@, records@[j].spec_recorded_at()@)
                }) by {
                    let t = records@[j].spec_recorded_at()@;
                    if j == i {
                        crate::text::lemma_text_lt_irreflexive(chars@);
                    } else if earliest {
                        if text_lt(t, chars@) {
                            lemma_text_lt_transitive(t, chars@, old_best);
                        }
                    } else {
                        if text_lt(chars@, t) {
                            lemma_text_lt_transitive(old_best, chars@, t);
                        }
                    }
                }
            }
            best = i;
            best_chars = chars;
        }
        i += 1;
    }
    Some(records[best].recorded_at().to_owned())
}

// ── Health ─────────────────────────────────────────────────────────────────

/// `health` holds the measures of the records at the instant `now_millis`.
pub open spec fn health_of(
    health: DomainHealth,
    records: Seq<ExpertiseRecord>,
    max_entries: u32,
    shelf_life: ShelfLife,
    now_millis: i64,
) -> bool {
    &&& health.governance_utilization == utilization(records.len(), max_entries)
    &&& health.stale_count == count_stale(records, now_millis, shelf_life)
    &&& health.type_distribution == type_counts_of(records)
    &&& health.classification_distribution == tier_counts_of(records)
    &&& is_bound(records, health.oldest_timestamp, true)
    &&& is_bound(records, health.newest_timestamp, false)
}

/// The measures of a domain at `now_millis`, an instant in milliseconds
/// since the Unix epoch.
pub fn calculate_domain_health(
    records: &[ExpertiseRecord],
    max_entries: u32,
    shelf_life: &ShelfLife,
    now_millis: i64,
) -> (health: DomainHealth)
    ensures
        health_of(health, records@, max_entries, *shelf_life, now_millis),
{
    let mut kinds = TypeCounts {
        convention: 0,
        pattern: 0,
        failure: 0,
        decision: 0,
        reference: 0,
        guide: 0,
    };
    let mut tiers = ClassificationCounts { foundational: 0, tactical: 0, observational: 0 };
    let mut stale: usize = 0;
    let mut i: usize = 0;
    assert(records@.take(0) =~= Seq::empty());
    while i < records.len()
        invariant
            i <= records@.len(),
            kinds == type_counts_of(records@.take(i as int)),
            tiers == tier_counts_of(records@.take(i as int)),
            stale == count_stale(records@.take(i as int), now_millis, *shelf_life),
        decreases records.len() - i,
    {
        proof {
            assert(records@.take(i + 1).drop_last() =~= records@.take(i as int));
            assert(records@.take(i + 1).last() == records@[i as int]);
            lemma_counts_bounded(
                records@.take(i + 1),
                records@[i as int].kind(),
                records@[i as int].spec_classification(),
                now_millis,
                *shelf_life,
            );
        }
        match records[i].record_type() {
            RecordType::Convention => {
                kinds.convention += 1;
            },
            RecordType::Pattern => {
                kinds.pattern += 1;
            },
            RecordType::Failure => {
                kinds.failure += 1;
            },
            RecordType::Decision => {
                kinds.decision += 1;
            },
            RecordType::Reference => {
                kinds.reference += 1;
            },
            RecordType::Guide => {
                kinds.guide += 1;
            },
        }
        match records[i].classification() {
            Classification::Foundational => {
                tiers.foundational += 1;
            },
            Classification::Tactical => {
                tiers.tactical += 1;
            },
            Classification::Observational => {
                tiers.observational += 1;
            },
        }
        if is_record_stale(&records[i], now_millis, shelf_life) {
            stale += 1;
        }
        i += 1;
    }
    assert(records@.take(records@.len() as int) =~= records@);
    let governance_utilization: u32 = if max_entries == 0 {
        0
    } else {
        let rounded: u128 = (200 * (records.len() as u128) + max_entries as u128) / (2
            * (max_entries as u128));
        if rounded > u32::MAX as u128 {
            u32::MAX
        } else {
            rounded as u32
        }
    };
    DomainHealth {
        governance_utilization,
        stale_count: stale,
        type_distribution: kinds,
        classification_distribution: tiers,
        oldest_timestamp: timestamp_bound(records, true),
        newest_timestamp: timestamp_bound(records, false),
    }
}

} // verus!
