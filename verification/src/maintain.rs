//! Keeping a domain tidy: which records are stale, which records are
//! superseded by a newer record of the same identity, and which kinds have
//! several records.

use crate::filter::is_duplicate_of;
use crate::health::{is_record_stale, is_stale};
use crate::text::{chars_eq, chars_less, chars_of, str_eq, text_lt};
use crate::types::{ExpertiseRecord, RecordType, ShelfLife};
use vstd::prelude::*;

verus! {

// ── Stale records ──────────────────────────────────────────────────────────

/// The positions among the first `upto` records of those that are stale,
/// ascending.
pub open spec fn stale_among(
    records: Seq<ExpertiseRecord>,
    now_millis: i64,
    shelf_life: ShelfLife,
    upto: int,
) -> Seq<usize>
    decreases upto,
{
    if upto <= 0 {
        Seq::empty()
    } else if is_stale(records[upto - 1], now_millis, shelf_life) {
        stale_among(records, now_millis, shelf_life, upto - 1).push((upto - 1) as usize)
    } else {
        stale_among(records, now_millis, shelf_life, upto - 1)
    }
}

/// The positions of the records that are stale at `now_millis`, ascending.
pub fn stale_positions(records: &[ExpertiseRecord], now_millis: i64, shelf_life: &ShelfLife) -> (out:
    Vec<usize>)
    ensures
        out@ == stale_among(records@, now_millis, *shelf_life, records@.len() as int),
{
    let mut out: Vec<usize> = Vec::new();
    let mut i: usize = 0;
    while i < records.len()
        invariant
            i <= records@.len(),
            out@ == stale_among(records@, now_millis, *shelf_life, i as int),
        decreases records.len() - i,
    {
        if is_record_stale(&records[i], now_millis, shelf_life) {
            out.push(i);
        }
        i += 1;
    }
    out
}

// ── Superseded records ─────────────────────────────────────────────────────

/// Record `j` supersedes record `i`: both are of the same kind and agree in
/// the field that is unique for it, and `j` was recorded later, or at the
/// same time and stands later.
pub open spec fn supersedes(records: Seq<ExpertiseRecord>, j: int, i: int) -> bool {
    let ti = records[i].spec_recorded_at()@;
    let tj = records[j].spec_recorded_at()@;
    is_duplicate_of(records[j], records[i]) && (text_lt(ti, tj) || (ti == tj && i < j))
}

/// No record supersedes record `i`.
pub open spec fn survives(records: Seq<ExpertiseRecord>, i: int) -> bool {
    forall|j: int| 0 <= j < records.len() ==> !supersedes(records, j, i)
}

/// The positions among the first `upto` records of those that no record
/// supersedes, ascending.
pub open spec fn survivors(records: Seq<ExpertiseRecord>, upto: int) -> Seq<usize>
    decreases upto,
{
    if upto <= 0 {
        Seq::empty()
    } else if survives(records, upto - 1) {
        survivors(records, upto - 1).push((upto - 1) as usize)
    } else {
        survivors(records, upto - 1)
    }
}

fn is_superseded_by(records: &[ExpertiseRecord], j: usize, i: usize) -> (r: bool)
    requires
        i < records@.len(),
        j < records@.len(),
    ensures
        r == supersedes(records@, j as int, i as int),
{
    if records[j].record_type() != records[i].record_type() || !str_eq(
        records[j].key_text(),
        records[i].key_text(),
    ) {
        return false;
    }
    let ti = chars_of(records[i].recorded_at());
    let tj = chars_of(records[j].recorded_at());
    chars_less(ti.as_slice(), tj.as_slice()) || (i < j && chars_eq(ti.as_slice(), tj.as_slice()))
}

/// The positions of the records that stay when a domain is compacted: of
/// the records with the same identity only the one recorded last stays.
pub fn compact_survivors(records: &[ExpertiseRecord]) -> (kept: Vec<usize>)
    ensures
        kept@ == survivors(records@, records@.len() as int),
{
    let mut kept: Vec<usize> = Vec::new();
    let mut i: usize = 0;
    while i < records.len()
        invariant
            i <= records@.len(),
            kept@ == survivors(records@, i as int),
        decreases records.len() - i,
    {
        let mut superseded = false;
        let mut j: usize = 0;
        while j < records.len() && !superseded
            invariant
                i < records@.len(),
                j <= records@.len(),
                !superseded ==> forall|h: int| 0 <= h < j ==> !supersedes(records@, h, i as int),
                superseded ==> !survives(records@, i as int),
            decreases records.len() - j + if superseded { 0int } else { 1int },
        {
            if is_superseded_by(records, j, i) {
                superseded = true;
            }
            j += 1;
        }
        if !superseded {
            kept.push(i);
        }
        i += 1;
    }
    kept
}

// ── Kinds with several records ─────────────────────────────────────────────

/// The positions among the first `upto` records of those of the kind.
pub open spec fn kind_positions(records: Seq<ExpertiseRecord>, kind: RecordType, upto: int) -> Seq<
    usize,
>
    decreases upto,
{
    if upto <= 0 {
        Seq::empty()
    } else if records[upto - 1].kind() == kind {
        kind_positions(records, kind, upto - 1).push((upto - 1) as usize)
    } else {
        kind_positions(records, kind, upto - 1)
    }
}

/// The positions of the records of the kind, ascending.
pub fn positions_of_kind(records: &[ExpertiseRecord], kind: RecordType) -> (out: Vec<usize>)
    ensures
        out@ == kind_positions(records@, kind, records@.len() as int),
{
    let mut out: Vec<usize> = Vec::new();
    let mut i: usize = 0;
    while i < records.len()
        invariant
            i <= records@.len(),
            out@ == kind_positions(records@, kind, i as int),
        decreases records.len() - i,
    {
        if records[i].record_type() == kind {
            out.push(i);
        }
        i += 1;
    }
    out
}

/// The records of one kind that could be merged.
pub struct CompactGroup {
    pub kind: RecordType,
    pub positions: Vec<usize>,
}

/// The groups for the first `upto` kinds, in the order of listing, that
/// have more than one record.
pub open spec fn groups_for(records: Seq<ExpertiseRecord>, upto: int) -> Seq<(RecordType, Seq<usize>)>
    decreases upto,
{
    if upto <= 0 {
        Seq::empty()
    } else {
        let kind = crate::format::listed_kinds()[upto - 1];
        let positions = kind_positions(records, kind, records.len() as int);
        if positions.len() > 1 {
            groups_for(records, upto - 1).push((kind, positions))
        } else {
            groups_for(records, upto - 1)
        }
    }
}

/// The groups as kinds and positions.
pub open spec fn groups_view(groups: Seq<CompactGroup>) -> Seq<(RecordType, Seq<usize>)> {
    Seq::new(groups.len(), |i: int| (groups[i].kind, groups[i].positions@))
}

/// The kinds that have more than one record, each with the positions of
/// its records.
pub fn find_compact_groups(records: &[ExpertiseRecord]) -> (groups: Vec<CompactGroup>)
    ensures
        groups_view(groups@) == groups_for(records@, 6),
{
    let mut kinds: Vec<RecordType> = Vec::new();
    kinds.push(RecordType::Convention);
    kinds.push(RecordType::Pattern);
    kinds.push(RecordType::Failure);
    kinds.push(RecordType::Decision);
    kinds.push(RecordType::Reference);
    kinds.push(RecordType::Guide);
    assert(kinds@ =~= crate::format::listed_kinds());
    let mut groups: Vec<CompactGroup> = Vec::new();
    let mut k: usize = 0;
    assert(groups_view(groups@) =~= groups_for(records@, 0));
    while k < 6
        invariant
            k <= 6,
            kinds@ == crate::format::listed_kinds(),
            groups_view(groups@) == groups_for(records@, k as int),
        decreases 6 - k,
    {
        let positions = positions_of_kind(records, kinds[k]);
        if positions.len() > 1 {
            let ghost before = groups@;
            groups.push(CompactGroup { kind: kinds[k], positions });
            assert(groups_view(groups@) =~= groups_view(before).push(
                (kinds@[k as int], groups@.last().positions@),
            ));
        }
        k += 1;
    }
    groups
}

// ── Laws ───────────────────────────────────────────────────────────────────

/// Compaction leaves one record of each identity: a record that does not
/// stay is superseded by a record that stays.
pub proof fn lemma_every_identity_survives(records: Seq<ExpertiseRecord>, i: int)
    requires
        0 <= i < records.len(),
    ensures
        exists|j: int|
            0 <= j < records.len() && is_duplicate_of(records[j], records[i]) && #[trigger] survives(
                records,
                j,
            ),
    decreases outranked_by(records, i, records.len() as int),
{
    if survives(records, i) {
        assert(is_duplicate_of(records[i], records[i]));
    } else {
        let j = choose|j: int| 0 <= j < records.len() && supersedes(records, j, i);
        lemma_outranked_fewer(records, j, i, records.len() as int);
        assert(supersedes(records, j, i));
        lemma_outranks_self_witness(records, j, i);
        lemma_every_identity_survives(records, j);
        let k = choose|k: int|
            0 <= k < records.len() && is_duplicate_of(records[k], records[j]) && #[trigger] survives(
                records,
                k,
            );
        assert(is_duplicate_of(records[k], records[i]));
    }
}

/// Number of records among the first `upto` that supersede record `i`.
pub open spec fn outranked_by(records: Seq<ExpertiseRecord>, i: int, upto: int) -> nat
    decreases upto,
{
    if upto <= 0 {
        0
    } else {
        outranked_by(records, i, upto - 1) + if supersedes(records, upto - 1, i) {
            1nat
        } else {
            0nat
        }
    }
}

/// What supersedes a record that supersedes `i`, supersedes `i`; so a
/// record that supersedes `i` is superseded by fewer records than `i`.
proof fn lemma_outranked_fewer(records: Seq<ExpertiseRecord>, j: int, i: int, upto: int)
    requires
        0 <= i < records.len(),
        0 <= j < records.len(),
        0 <= upto <= records.len(),
        supersedes(records, j, i),
    ensures
        outranked_by(records, j, upto) <= outranked_by(records, i, upto),
        j < upto ==> outranked_by(records, j, upto) < outranked_by(records, i, upto),
    decreases upto,
{
    if upto > 0 {
        lemma_outranked_fewer(records, j, i, upto - 1);
        let h = upto - 1;
        if supersedes(records, h, j) {
            let ti = records[i].spec_recorded_at()@;
            let tj = records[j].spec_recorded_at()@;
            let th = records[h].spec_recorded_at()@;
            if text_lt(tj, th) && text_lt(ti, tj) {
                crate::text::lemma_text_lt_transitive(ti, tj, th);
            }
            assert(supersedes(records, h, i));
        }
        if h == j {
            crate::text::lemma_text_lt_irreflexive(records[j].spec_recorded_at()@);
            assert(!supersedes(records, j, j));
        }
    }
}

/// A record does not supersede itself.
proof fn lemma_outranks_self_witness(records: Seq<ExpertiseRecord>, j: int, i: int)
    requires
        0 <= i < records.len(),
        0 <= j < records.len(),
        supersedes(records, j, i),
    ensures
        outranked_by(records, j, records.len() as int) < outranked_by(records, i, records.len() as int),
{
    lemma_outranked_fewer(records, j, i, records.len() as int);
}

} // verus!
