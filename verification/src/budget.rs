//! Fitting records into a size budget.
//!
//! Records of all domains are ranked by kind, durability, confirmation score
//! and age, and accepted in that order while their cost fits. The first
//! record that does not fit ends the run: it and everything ranked after it
//! is dropped.

use crate::order::{is_stable_order, lemma_stable_order_unique, stable_order, SortKey};
use crate::scoring::{compute_confirmation_score, score_halves};
use crate::text::{char_len, decimal, decimal_text, join, joined, str_eq, strs};
use crate::timestamp::{parse_rfc3339_millis, rfc3339_millis};
use crate::types::{Classification, ExpertiseRecord, RecordType};
use vstd::prelude::*;

verus! {

pub const DEFAULT_BUDGET: usize = 4000;

/// The records of one domain.
pub struct DomainRecords<'a> {
    pub domain: String,
    pub records: Vec<&'a ExpertiseRecord>,
}

/// What is left of the groups after the budget was applied.
pub struct BudgetResult<'a> {
    pub kept: Vec<DomainRecords<'a>>,
    pub dropped_count: usize,
    pub dropped_domain_count: usize,
}

// ── Cost ───────────────────────────────────────────────────────────────────

/// Cost of a text of `chars` characters: one unit per four characters,
/// rounded up.
pub open spec fn token_estimate(chars: nat) -> nat {
    (chars + 3) / 4
}

/// Estimated cost of `text`.
pub fn estimate_tokens(text: &str) -> (n: usize)
    ensures
        n == token_estimate(text@.len()),
{
    let len = char_len(text);
    if len % 4 == 0 {
        len / 4
    } else {
        len / 4 + 1
    }
}

/// The files of a record that has some, joined by commas.
pub open spec fn listed_files(files: Option<Vec<String>>) -> Option<Seq<char>> {
    match files {
        Some(v) => if v@.len() > 0 {
            Some(joined(strs(v@), ", "@))
        } else {
            None
        },
        None => None,
    }
}

/// A short text for a record, by which its cost can be estimated: its kind
/// in brackets, then what it says.
pub open spec fn estimate_text(r: ExpertiseRecord) -> Seq<char> {
    match r {
        ExpertiseRecord::Convention { content, .. } => "[convention] "@ + content@,
        ExpertiseRecord::Pattern { name, description, files, .. } => "[pattern] "@ + name@ + ": "@
            + description@ + match listed_files(files) {
            Some(list) => " ("@ + list + ")"@,
            None => Seq::empty(),
        },
        ExpertiseRecord::Failure { description, resolution, .. } => "[failure] "@ + description@
            + " -> "@ + resolution@,
        ExpertiseRecord::Decision { title, rationale, .. } => "[decision] "@ + title@ + ": "@
            + rationale@,
        ExpertiseRecord::Reference { name, description, files, .. } => "[reference] "@ + name@
            + ": "@ + match listed_files(files) {
            Some(list) => list,
            None => description@,
        },
        ExpertiseRecord::Guide { name, description, .. } => "[guide] "@ + name@ + ": "@
            + description@,
    }
}

fn files_text(files: &Option<Vec<String>>) -> (r: Option<String>)
    ensures
        crate::text::opt_string_view(r) == listed_files(*files),
{
    match files {
        Some(v) => {
            if v.len() > 0 {
                Some(join(v.as_slice(), ", "))
            } else {
                None
            }
        },
        None => None,
    }
}

/// A short text for a record, by which its cost can be estimated.
pub fn estimate_record_text(record: &ExpertiseRecord) -> (text: String)
    ensures
        text@ == estimate_text(*record),
{
    let mut text = String::new();
    match record {
        ExpertiseRecord::Convention { content, .. } => {
            text.append("[convention] ");
            text.append(content.as_str());
        },
        ExpertiseRecord::Pattern { name, description, files, .. } => {
            text.append("[pattern] ");
            text.append(name.as_str());
            text.append(": ");
            text.append(description.as_str());
            let ghost head = text@;
            match files_text(files) {
                Some(list) => {
                    text.append(" (");
                    text.append(list.as_str());
                    text.append(")");
                    assert(text@ =~= head + (" ("@ + list@ + ")"@));
                },
                None => {
                    assert(text@ =~= head + Seq::<char>::empty());
                },
            }
        },
        ExpertiseRecord::Failure { description, resolution, .. } => {
            text.append("[failure] ");
            text.append(description.as_str());
            text.append(" -> ");
            text.append(resolution.as_str());
        },
        ExpertiseRecord::Decision { title, rationale, .. } => {
            text.append("[decision] ");
            text.append(title.as_str());
            text.append(": ");
            text.append(rationale.as_str());
        },
        ExpertiseRecord::Reference { name, description, files, .. } => {
            text.append("[reference] ");
            text.append(name.as_str());
            text.append(": ");
            match files_text(files) {
                Some(list) => {
                    text.append(list.as_str());
                },
                None => {
                    text.append(description.as_str());
                },
            }
        },
        ExpertiseRecord::Guide { name, description, .. } => {
            text.append("[guide] ");
            text.append(name.as_str());
            text.append(": ");
            text.append(description.as_str());
        },
    }
    text
}

// ── Priority ───────────────────────────────────────────────────────────────

/// Rank of a kind of record; lower ranks are kept first.
pub open spec fn type_rank(rt: RecordType) -> int {
    match rt {
        RecordType::Convention => 0,
        RecordType::Decision => 1,
        RecordType::Pattern => 2,
        RecordType::Guide => 3,
        RecordType::Failure => 4,
        RecordType::Reference => 5,
    }
}

/// Rank of a durability tier; lower ranks are kept first.
pub open spec fn classification_rank(c: Classification) -> int {
    match c {
        Classification::Foundational => 0,
        Classification::Tactical => 1,
        Classification::Observational => 2,
    }
}

/// The key that ranks a record: kind, then tier, then confirmation score
/// with the higher score first, then time of recording with the newer record
/// first and records without a readable time last.
pub open spec fn sort_key_of(r: ExpertiseRecord) -> SortKey {
    SortKey {
        first: type_rank(r.kind()) as i128,
        second: classification_rank(r.spec_classification()) as i128,
        third: (-(score_halves(r.outcome_seq()) as int)) as i128,
        fourth: match rfc3339_millis(r.spec_recorded_at()@) {
            Some(t) => (-(t as int)) as i128,
            None => i128::MAX,
        },
    }
}

pub fn type_priority_index(rt: RecordType) -> (i: usize)
    ensures
        i == type_rank(rt),
{
    match rt {
        RecordType::Convention => 0,
        RecordType::Decision => 1,
        RecordType::Pattern => 2,
        RecordType::Guide => 3,
        RecordType::Failure => 4,
        RecordType::Reference => 5,
    }
}

pub fn classification_priority_index(c: Classification) -> (i: usize)
    ensures
        i == classification_rank(c),
{
    match c {
        Classification::Foundational => 0,
        Classification::Tactical => 1,
        Classification::Observational => 2,
    }
}

/// The key that ranks `r` among the records to keep.
pub fn record_sort_key(r: &ExpertiseRecord) -> (key: SortKey)
    ensures
        key == sort_key_of(*r),
{
    let halves = compute_confirmation_score(r);
    let fourth: i128 = match parse_rfc3339_millis(r.recorded_at()) {
        Some(t) => -(t as i128),
        None => i128::MAX,
    };
    SortKey {
        first: type_priority_index(r.record_type()) as i128,
        second: classification_priority_index(r.classification()) as i128,
        third: -(halves as i128),
        fourth,
    }
}

// ── Summary line ───────────────────────────────────────────────────────────

/// The plural ending for a count.
pub open spec fn plural_suffix(n: nat) -> Seq<char> {
    if n == 1 {
        Seq::empty()
    } else {
        "s"@
    }
}

/// The text of the truncation notice.
pub open spec fn budget_summary_text(dropped: nat, domains: nat) -> Seq<char> {
    "... and "@ + decimal_text(dropped) + " more record"@ + plural_suffix(dropped) + (if domains
        > 0 {
        " across "@ + decimal_text(domains) + " domain"@ + plural_suffix(domains)
    } else {
        Seq::empty()
    }) + " (use --budget <n> to show more)"@
}

/// The notice that tells how many records, of how many domains, were left
/// out.
pub fn format_budget_summary(dropped_count: usize, dropped_domain_count: usize) -> (s: String)
    ensures
        s@ == budget_summary_text(dropped_count as nat, dropped_domain_count as nat),
{
    let mut s = String::new();
    s.append("... and ");
    s.append(decimal(dropped_count as u64).as_str());
    s.append(" more record");
    if dropped_count != 1 {
        s.append("s");
    }
    let ghost head = s@;
    if dropped_domain_count > 0 {
        s.append(" across ");
        s.append(decimal(dropped_domain_count as u64).as_str());
        s.append(" domain");
        if dropped_domain_count != 1 {
            s.append("s");
        }
        assert(s@ =~= head + (" across "@ + decimal_text(dropped_domain_count as nat)
            + " domain"@ + plural_suffix(dropped_domain_count as nat)));
    } else {
        assert(s@ =~= head + Seq::<char>::empty());
    }
    s.append(" (use --budget <n> to show more)");
    s
}

// ── Applying the budget ────────────────────────────────────────────────────

/// The records of all groups, group after group.
pub open spec fn flat_records(groups: Seq<DomainRecords>) -> Seq<&ExpertiseRecord>
    decreases groups.len(),
{
    if groups.len() == 0 {
        Seq::empty()
    } else {
        flat_records(groups.drop_last()) + groups.last().records@
    }
}

/// The domain name that goes with each record of `flat_records`.
pub open spec fn flat_domains(groups: Seq<DomainRecords>) -> Seq<Seq<char>>
    decreases groups.len(),
{
    if groups.len() == 0 {
        Seq::empty()
    } else {
        flat_domains(groups.drop_last()) + Seq::new(
            groups.last().records@.len(),
            |i: int| groups.last().domain@,
        )
    }
}

/// The ranking keys of the records, in the order of `flat_records`.
pub open spec fn flat_keys(groups: Seq<DomainRecords>) -> Seq<SortKey> {
    Seq::new(flat_records(groups).len(), |i: int| sort_key_of(*flat_records(groups)[i]))
}

/// Position in `flat_records` of the first record of group `g`.
pub open spec fn group_offset(groups: Seq<DomainRecords>, g: int) -> int {
    flat_records(groups.take(g)).len() as int
}

/// Cost of the first `k` records in rank order.
pub open spec fn prefix_cost(costs: Seq<usize>, order: Seq<usize>, k: int) -> int
    decreases k,
{
    if k <= 0 {
        0
    } else {
        prefix_cost(costs, order, k - 1) + costs[order[k - 1] as int]
    }
}

/// Exactly `k` records are accepted: the first `k` in rank order fit the
/// budget together, and the next one, where there is one, does not fit on
/// top of them.
pub open spec fn is_greedy_cut(costs: Seq<usize>, order: Seq<usize>, budget: int, k: int) -> bool {
    &&& 0 <= k <= order.len()
    &&& prefix_cost(costs, order, k) <= budget
    &&& k < order.len() ==> prefix_cost(costs, order, k + 1) > budget
}

/// The record at position `f` of `flat_records` is among the first `k` in
/// rank order.
pub open spec fn is_kept(order: Seq<usize>, k: int, f: int) -> bool {
    exists|p: int| 0 <= p < k && #[trigger] order[p] == f
}

/// The records of one group that are kept, in the order in which they were given. The
/// group's first record is at position `offset` of `flat_records`.
pub open spec fn kept_of(
    records: Seq<&ExpertiseRecord>,
    offset: int,
    order: Seq<usize>,
    k: int,
) -> Seq<&ExpertiseRecord>
    decreases records.len(),
{
    if records.len() == 0 {
        Seq::empty()
    } else {
        let rest = kept_of(records.drop_last(), offset, order, k);
        if is_kept(order, k, offset + records.len() - 1) {
            rest.push(records.last())
        } else {
            rest
        }
    }
}

/// A group as its name and its records.
pub open spec fn group_view(g: DomainRecords) -> (Seq<char>, Seq<&ExpertiseRecord>) {
    (g.domain@, g.records@)
}

/// The groups as names and records.
pub open spec fn groups_view(groups: Seq<DomainRecords>) -> Seq<(Seq<char>, Seq<&ExpertiseRecord>)> {
    Seq::new(groups.len(), |i: int| group_view(groups[i]))
}

/// The groups that keep at least one record, each with the records it
/// keeps, in the order in which the groups were given.
pub open spec fn kept_groups(groups: Seq<DomainRecords>, upto: int, order: Seq<usize>, k: int) -> Seq<
    (Seq<char>, Seq<&ExpertiseRecord>),
>
    decreases upto,
{
    if upto <= 0 {
        Seq::empty()
    } else {
        let rest = kept_groups(groups, upto - 1, order, k);
        let kept = kept_of(groups[upto - 1].records@, group_offset(groups, upto - 1), order, k);
        if kept.len() > 0 {
            rest.push((groups[upto - 1].domain@, kept))
        } else {
            rest
        }
    }
}

/// Record `r` of group `g` is dropped.
pub open spec fn is_dropped(groups: Seq<DomainRecords>, g: int, r: int, order: Seq<usize>, k: int) -> bool {
    !is_kept(order, k, group_offset(groups, g) + r)
}

/// Group `g` loses at least one of its records.
pub open spec fn loses_record(groups: Seq<DomainRecords>, g: int, order: Seq<usize>, k: int) -> bool {
    exists|r: int| 0 <= r < groups[g].records@.len() && #[trigger] is_dropped(groups, g, r, order, k)
}

/// Group `g` loses a record, and no group before it with the same domain
/// name does.
pub open spec fn first_to_lose(groups: Seq<DomainRecords>, g: int, order: Seq<usize>, k: int) -> bool {
    &&& loses_record(groups, g, order, k)
    &&& forall|h: int|
        0 <= h < g ==> !(#[trigger] loses_record(groups, h, order, k) && groups[h].domain@
            == groups[g].domain@)
}

/// Number of distinct domain names among the first `upto` groups that lose
/// a record.
pub open spec fn affected_count(groups: Seq<DomainRecords>, upto: int, order: Seq<usize>, k: int) -> nat
    decreases upto,
{
    if upto <= 0 {
        0
    } else {
        affected_count(groups, upto - 1, order, k) + if first_to_lose(groups, upto - 1, order, k) {
            1nat
        } else {
            0nat
        }
    }
}

/// `result` is what the budget leaves of `groups`, where the record at
/// position `i` of `flat_records` costs `costs[i]`, the records are taken in
/// the rank order `order`, and the first `k` of them are accepted.
pub open spec fn budget_applied_with(
    groups: Seq<DomainRecords>,
    budget: int,
    costs: Seq<usize>,
    result: BudgetResult,
    order: Seq<usize>,
    k: int,
) -> bool {
    &&& is_stable_order(flat_keys(groups), order)
    &&& is_greedy_cut(costs, order, budget, k)
    &&& groups_view(result.kept@) == kept_groups(groups, groups.len() as int, order, k)
    &&& result.dropped_count == flat_records(groups).len() - k
    &&& result.dropped_domain_count == affected_count(groups, groups.len() as int, order, k)
}

/// `result` is what the budget leaves of `groups` at the given costs: the
/// records are ranked, accepted in rank order while they fit, and regrouped
/// by domain in the order in which they were given.
pub open spec fn budget_applied(
    groups: Seq<DomainRecords>,
    budget: int,
    costs: Seq<usize>,
    result: BudgetResult,
) -> bool {
    exists|order: Seq<usize>, k: int| #[trigger]
        budget_applied_with(groups, budget, costs, result, order, k)
}

/// The records up to and including group `g` are those before it followed
/// by its own.
pub proof fn lemma_flat_step(groups: Seq<DomainRecords>, g: int)
    requires
        0 <= g < groups.len(),
    ensures
        flat_records(groups.take(g + 1)) == flat_records(groups.take(g)) + groups[g].records@,
        flat_domains(groups.take(g + 1)) == flat_domains(groups.take(g)) + Seq::new(
            groups[g].records@.len(),
            |i: int| groups[g].domain@,
        ),
        flat_domains(groups.take(g + 1)).len() == flat_records(groups.take(g + 1)).len(),
    decreases g,
{
    let upto = groups.take(g + 1);
    assert(upto.drop_last() =~= groups.take(g));
    assert(upto.last() == groups[g]);
    if g > 0 {
        lemma_flat_step(groups, g - 1);
    }
}

/// A group's records lie inside the flattened list.
pub proof fn lemma_group_within(groups: Seq<DomainRecords>, g: int)
    requires
        0 <= g < groups.len(),
    ensures
        group_offset(groups, g) + groups[g].records@.len() <= flat_records(groups).len(),
        forall|r: int|
            0 <= r < groups[g].records@.len() ==> flat_records(groups)[group_offset(groups, g) + r]
                == #[trigger] groups[g].records@[r],
    decreases groups.len() - g,
{
    lemma_flat_step(groups, g);
    if g + 1 == groups.len() {
        assert(groups.take(g + 1) =~= groups);
    } else {
        lemma_group_within(groups, g + 1);
        lemma_flat_step(groups, g + 1);
        assert forall|r: int| 0 <= r < groups[g].records@.len() implies flat_records(
            groups,
        )[group_offset(groups, g) + r] == #[trigger] groups[g].records@[r] by {
            lemma_flat_prefix(groups, g + 1, group_offset(groups, g) + r);
        }
    }
}

/// The flattened list of the first `g` groups is a prefix of the whole.
pub proof fn lemma_flat_prefix(groups: Seq<DomainRecords>, g: int, f: int)
    requires
        0 <= g <= groups.len(),
        0 <= f < flat_records(groups.take(g)).len(),
    ensures
        f < flat_records(groups).len(),
        flat_records(groups)[f] == flat_records(groups.take(g))[f],
    decreases groups.len() - g,
{
    if g == groups.len() {
        assert(groups.take(g) =~= groups);
    } else {
        lemma_flat_step(groups, g);
        lemma_flat_prefix(groups, g + 1, f);
    }
}

fn flatten<'a>(groups: &[DomainRecords<'a>]) -> (r: (Vec<&'a ExpertiseRecord>, Vec<usize>))
    ensures
        r.0@ == flat_records(groups@),
        r.1@.len() == groups@.len(),
        forall|g: int| 0 <= g < groups@.len() ==> #[trigger] r.1@[g] == group_offset(groups@, g),
{
    let mut flat: Vec<&'a ExpertiseRecord> = Vec::new();
    let mut offsets: Vec<usize> = Vec::new();
    let mut g: usize = 0;
    assert(groups@.take(0) =~= Seq::empty());
    while g < groups.len()
        invariant
            g <= groups@.len(),
            flat@ == flat_records(groups@.take(g as int)),
            offsets@.len() == g,
            forall|h: int| 0 <= h < g ==> #[trigger] offsets@[h] == group_offset(groups@, h),
        decreases groups.len() - g,
    {
        offsets.push(flat.len());
        let ghost before = flat@;
        let records = &groups[g].records;
        let mut r: usize = 0;
        while r < records.len()
            invariant
                r <= records@.len(),
                flat@ == before + records@.take(r as int),
            decreases records.len() - r,
        {
            flat.push(records[r]);
            assert(records@.take(r + 1) =~= records@.take(r as int).push(records@[r as int]));
            assert(flat@ =~= before + records@.take(r + 1));
            r += 1;
        }
        proof {
            assert(records@.take(records@.len() as int) =~= records@);
            lemma_flat_step(groups@, g as int);
        }
        g += 1;
    }
    assert(groups@.take(groups@.len() as int) =~= groups@);
    (flat, offsets)
}

fn keys_of(flat: &Vec<&ExpertiseRecord>) -> (keys: Vec<SortKey>)
    ensures
        keys@ == Seq::new(flat@.len(), |i: int| sort_key_of(*flat@[i])),
{
    let mut keys: Vec<SortKey> = Vec::new();
    let mut i: usize = 0;
    while i < flat.len()
        invariant
            i <= flat@.len(),
            keys@ == Seq::new(i as nat, |j: int| sort_key_of(*flat@[j])),
        decreases flat.len() - i,
    {
        keys.push(record_sort_key(flat[i]));
        i += 1;
        assert(keys@ =~= Seq::new(i as nat, |j: int| sort_key_of(*flat@[j])));
    }
    keys
}

fn greedy_count(costs: &[usize], order: &Vec<usize>, budget: usize) -> (k: usize)
    requires
        order@.len() == costs@.len(),
        forall|p: int| 0 <= p < order@.len() ==> (#[trigger] order@[p]) < costs@.len(),
    ensures
        is_greedy_cut(costs@, order@, budget as int, k as int),
{
    let mut used: usize = 0;
    let mut k: usize = 0;
    while k < order.len()
        invariant
            k <= order@.len(),
            order@.len() == costs@.len(),
            forall|p: int| 0 <= p < order@.len() ==> (#[trigger] order@[p]) < costs@.len(),
            used == prefix_cost(costs@, order@, k as int),
            used <= budget,
        decreases order.len() - k,
    {
        let cost = costs[order[k]];
        if cost > budget - used {
            return k;
        }
        used += cost;
        k += 1;
    }
    k
}

/// One more accepted record marks exactly its own position.
proof fn lemma_is_kept_step(order: Seq<usize>, p: int, f: int)
    requires
        0 <= p < order.len(),
    ensures
        is_kept(order, p + 1, f) == (is_kept(order, p, f) || order[p] == f),
{
    if is_kept(order, p + 1, f) {
        let q = choose|q: int| 0 <= q < p + 1 && #[trigger] order[q] == f;
        if q < p {
            assert(is_kept(order, p, f));
        }
    }
    if is_kept(order, p, f) {
        let q = choose|q: int| 0 <= q < p && #[trigger] order[q] == f;
        assert(0 <= q < p + 1 && order[q] == f);
    }
    if order[p] == f {
        assert(0 <= p < p + 1 && order[p] == f);
    }
}

fn kept_flags(order: &Vec<usize>, k: usize) -> (flags: Vec<bool>)
    requires
        k <= order@.len(),
        forall|p: int| 0 <= p < order@.len() ==> (#[trigger] order@[p]) < order@.len(),
    ensures
        flags@.len() == order@.len(),
        forall|f: int| 0 <= f < flags@.len() ==> #[trigger] flags@[f] == is_kept(order@, k as int, f),
{
    let mut flags: Vec<bool> = Vec::new();
    let mut i: usize = 0;
    while i < order.len()
        invariant
            i <= order@.len(),
            flags@.len() == i,
            forall|f: int| 0 <= f < i ==> !#[trigger] flags@[f],
        decreases order.len() - i,
    {
        flags.push(false);
        i += 1;
    }
    let mut p: usize = 0;
    while p < k
        invariant
            p <= k <= order@.len(),
            flags@.len() == order@.len(),
            forall|q: int| 0 <= q < order@.len() ==> (#[trigger] order@[q]) < order@.len(),
            forall|f: int| 0 <= f < flags@.len() ==> #[trigger] flags@[f] == is_kept(order@, p as int, f),
        decreases k - p,
    {
        let ghost before = flags@;
        flags.set(order[p], true);
        proof {
            assert forall|f: int| 0 <= f < flags@.len() implies #[trigger] flags@[f] == is_kept(
                order@,
                p + 1,
                f,
            ) by {
                lemma_is_kept_step(order@, p as int, f);
                assert(before[f] == is_kept(order@, p as int, f));
            }
        }
        p += 1;
    }
    flags
}

fn regroup<'a>(
    groups: &[DomainRecords<'a>],
    offsets: &Vec<usize>,
    flags: &Vec<bool>,
    Ghost(order): Ghost<Seq<usize>>,
    Ghost(k): Ghost<int>,
) -> (r: (Vec<DomainRecords<'a>>, usize))
    requires
        offsets@.len() == groups@.len(),
        forall|g: int| 0 <= g < groups@.len() ==> #[trigger] offsets@[g] == group_offset(groups@, g),
        flags@.len() == flat_records(groups@).len(),
        forall|f: int| 0 <= f < flags@.len() ==> #[trigger] flags@[f] == is_kept(order, k, f),
    ensures
        groups_view(r.0@) == kept_groups(groups@, groups@.len() as int, order, k),
        r.1 == affected_count(groups@, groups@.len() as int, order, k),
{
    let mut out: Vec<DomainRecords<'a>> = Vec::new();
    let mut lost: Vec<bool> = Vec::new();
    let mut count: usize = 0;
    let mut g: usize = 0;
    assert(groups_view(out@) =~= kept_groups(groups@, 0, order, k));
    while g < groups.len()
        invariant
            g <= groups@.len(),
            offsets@.len() == groups@.len(),
            forall|h: int|
                0 <= h < groups@.len() ==> #[trigger] offsets@[h] == group_offset(groups@, h),
            flags@.len() == flat_records(groups@).len(),
            forall|f: int| 0 <= f < flags@.len() ==> #[trigger] flags@[f] == is_kept(order, k, f),
            groups_view(out@) == kept_groups(groups@, g as int, order, k),
            count == affected_count(groups@, g as int, order, k),
            count <= g,
            lost@.len() == g,
            forall|h: int| 0 <= h < g ==> #[trigger] lost@[h] == loses_record(groups@, h, order, k),
        decreases groups.len() - g,
    {
        let records = &groups[g].records;
        let offset = offsets[g];
        let total = flags.len();
        proof {
            lemma_group_within(groups@, g as int);
        }
        let mut kept: Vec<&'a ExpertiseRecord> = Vec::new();
        let mut loses = false;
        let mut r: usize = 0;
        while r < records.len()
            invariant
                r <= records@.len(),
                records@ == groups@[g as int].records@,
                g < groups@.len(),
                offset == group_offset(groups@, g as int),
                offset + records@.len() <= flags@.len() == total,
                forall|f: int| 0 <= f < flags@.len() ==> #[trigger] flags@[f] == is_kept(order, k, f),
                kept@ == kept_of(records@.take(r as int), offset as int, order, k),
                loses == exists|q: int| 0 <= q < r && #[trigger] is_dropped(groups@, g as int, q, order, k),
            decreases records.len() - r,
        {
            proof {
                assert(records@.take(r + 1).drop_last() =~= records@.take(r as int));
                assert(records@.take(r + 1).last() == records@[r as int]);
            }
            if flags[offset + r] {
                kept.push(records[r]);
                proof {
                    if loses {
                        let q = choose|q: int|
                            0 <= q < r && #[trigger] is_dropped(groups@, g as int, q, order, k);
                        assert(0 <= q < r + 1 && is_dropped(groups@, g as int, q, order, k));
                    }
                }
            } else {
                loses = true;
                assert(is_dropped(groups@, g as int, r as int, order, k));
            }
            r += 1;
        }
        assert(records@.take(records@.len() as int) =~= records@);
        assert(loses == loses_record(groups@, g as int, order, k));
        let mut first = loses;
        if loses {
            let mut h: usize = 0;
            while h < g
                invariant
                    h <= g < groups@.len(),
                    lost@.len() == g,
                    forall|j: int|
                        0 <= j < g ==> #[trigger] lost@[j] == loses_record(groups@, j, order, k),
                    first == forall|j: int|
                        0 <= j < h ==> !(#[trigger] loses_record(groups@, j, order, k)
                            && groups@[j].domain@ == groups@[g as int].domain@),
                decreases g - h,
            {
                if lost[h] && str_eq(groups[h].domain.as_str(), groups[g].domain.as_str()) {
                    first = false;
                }
                h += 1;
            }
        }
        assert(first == first_to_lose(groups@, g as int, order, k));
        if first {
            count += 1;
        }
        lost.push(loses);
        let ghost before = out@;
        if kept.len() > 0 {
            out.push(DomainRecords { domain: groups[g].domain.clone(), records: kept });
            assert(groups_view(out@) =~= groups_view(before).push(
                (groups@[g as int].domain@, kept@),
            ));
        }
        g += 1;
    }
    (out, count)
}

fn budget_with_costs<'a>(groups: &[DomainRecords<'a>], budget: usize, costs: &[usize]) -> (result:
    BudgetResult<'a>)
    requires
        costs@.len() == flat_records(groups@).len(),
    ensures
        budget_applied(groups@, budget as int, costs@, result),
{
    let (flat, offsets) = flatten(groups);
    let keys = keys_of(&flat);
    let order = stable_order(keys.as_slice());
    assert(keys@ =~= flat_keys(groups@));
    let k = greedy_count(costs, &order, budget);
    let flags = kept_flags(&order, k);
    let (kept, affected) = regroup(groups, &offsets, &flags, Ghost(order@), Ghost(k as int));
    let result = BudgetResult {
        kept,
        dropped_count: flat.len() - k,
        dropped_domain_count: affected,
    };
    assert(budget_applied_with(groups@, budget as int, costs@, result, order@, k as int));
    result
}

fn count_records(groups: &[DomainRecords]) -> (n: usize)
    ensures
        n == flat_records(groups@).len(),
{
    let (flat, _) = flatten(groups);
    flat.len()
}

/// Applies the budget where the cost of each record is known: `costs[i]` is
/// the cost of the record at position `i` when the groups are read one after
/// the other. Nothing is done, and `None` returned, where there is not one
/// cost for each record.
pub fn apply_budget_with_costs<'a>(
    groups: &[DomainRecords<'a>],
    budget: usize,
    costs: &[usize],
) -> (result: Option<BudgetResult<'a>>)
    ensures
        result is Some <==> costs@.len() == flat_records(groups@).len(),
        result matches Some(r) ==> budget_applied(groups@, budget as int, costs@, r),
{
    if costs.len() != count_records(groups) {
        return None;
    }
    Some(budget_with_costs(groups, budget, costs))
}

/// `cost` is the estimated cost of a text that `format_record` gives for
/// the record and the name of its domain.
pub open spec fn cost_comes_from<F: Fn(&ExpertiseRecord, &str) -> String>(
    format_record: F,
    record: &ExpertiseRecord,
    name: Seq<char>,
    cost: usize,
) -> bool {
    exists|domain: &str, text: String|
        domain@ == name && #[trigger] call_ensures(format_record, (record, domain), text) && cost
            == token_estimate(text@.len())
}

/// Each cost is the estimated cost of a text that `format_record` gives for
/// the record at that position and the name of its domain.
pub open spec fn costs_come_from<F: Fn(&ExpertiseRecord, &str) -> String>(
    format_record: F,
    groups: Seq<DomainRecords>,
    costs: Seq<usize>,
) -> bool {
    &&& costs.len() == flat_records(groups).len()
    &&& forall|i: int|
        0 <= i < costs.len() ==> cost_comes_from(
            format_record,
            flat_records(groups)[i],
            flat_domains(groups)[i],
            #[trigger] costs[i],
        )
}

/// Applies a size budget to the records of several domains. The cost of a
/// record is the estimated cost of the text that `format_record` gives for
/// it. Records are ranked by kind, tier, confirmation score and age, and
/// accepted in that order until one does not fit; the kept records are
/// regrouped by domain in the order in which they were given.
pub fn apply_budget<'a, F>(
    domains: &[DomainRecords<'a>],
    budget: usize,
    format_record: F,
) -> (result: BudgetResult<'a>) where F: Fn(&ExpertiseRecord, &str) -> String
    requires
        forall|record: &ExpertiseRecord, domain: &str| call_requires(format_record, (record, domain)),
    ensures
        exists|costs: Seq<usize>|
            costs_come_from(format_record, domains@, costs) && #[trigger] budget_applied(
                domains@,
                budget as int,
                costs,
                result,
            ),
{
    let mut costs: Vec<usize> = Vec::new();
    let mut g: usize = 0;
    assert(domains@.take(0) =~= Seq::empty());
    while g < domains.len()
        invariant
            g <= domains@.len(),
            forall|record: &ExpertiseRecord, domain: &str|
                call_requires(format_record, (record, domain)),
            costs_come_from(format_record, domains@.take(g as int), costs@),
            flat_domains(domains@.take(g as int)).len() == flat_records(
                domains@.take(g as int),
            ).len(),
        decreases domains.len() - g,
    {
        let records = &domains[g].records;
        let name = domains[g].domain.as_str();
        let ghost before = costs@;
        let ghost done = domains@.take(g as int);
        let ghost upto = domains@.take(g + 1);
        proof {
            lemma_flat_step(domains@, g as int);
        }
        let mut r: usize = 0;
        while r < records.len()
            invariant
                r <= records@.len(),
                g < domains@.len(),
                records@ == domains@[g as int].records@,
                name@ == domains@[g as int].domain@,
                forall|record: &ExpertiseRecord, domain: &str|
                    call_requires(format_record, (record, domain)),
                flat_records(upto) == flat_records(done) + records@,
                flat_domains(upto) == flat_domains(done) + Seq::new(
                    records@.len(),
                    |i: int| domains@[g as int].domain@,
                ),
                flat_domains(done).len() == flat_records(done).len(),
                costs_come_from(format_record, done, before),
                costs@.len() == before.len() + r,
                forall|i: int|
                    0 <= i < costs@.len() ==> cost_comes_from(
                        format_record,
                        flat_records(upto)[i],
                        flat_domains(upto)[i],
                        #[trigger] costs@[i],
                    ),
            decreases records.len() - r,
        {
            let text = format_record(records[r], name);
            let cost = estimate_tokens(text.as_str());
            let ghost prev = costs@;
            costs.push(cost);
            proof {
                let at = prev.len() as int;
                assert(flat_records(upto)[at] == records@[r as int]);
                assert(flat_domains(upto)[at] == name@);
                assert(call_ensures(format_record, (records@[r as int], name), text));
                assert(cost_comes_from(format_record, records@[r as int], name@, cost));
                assert forall|i: int| 0 <= i < costs@.len() implies cost_comes_from(
                    format_record,
                    flat_records(upto)[i],
                    flat_domains(upto)[i],
                    #[trigger] costs@[i],
                ) by {
                    if i < at {
                        assert(costs@[i] == prev[i]);
                    }
                }
            }
            r += 1;
        }
        g += 1;
    }
    assert(domains@.take(domains@.len() as int) =~= domains@);
    let result = budget_with_costs(domains, budget, costs.as_slice());
    assert(costs_come_from(format_record, domains@, costs@));
    result
}

// ── Laws ───────────────────────────────────────────────────────────────────

/// More records never cost less.
pub proof fn lemma_prefix_cost_monotone(costs: Seq<usize>, order: Seq<usize>, i: int, j: int)
    requires
        i <= j,
    ensures
        prefix_cost(costs, order, i) <= prefix_cost(costs, order, j),
    decreases j - i,
{
    if i < j {
        lemma_prefix_cost_monotone(costs, order, i, j - 1);
    }
}

/// A larger budget never accepts fewer records; the same budget accepts
/// the same number.
pub proof fn lemma_greedy_cut_monotone(
    costs: Seq<usize>,
    order: Seq<usize>,
    smaller: int,
    larger: int,
    k_smaller: int,
    k_larger: int,
)
    requires
        smaller <= larger,
        is_greedy_cut(costs, order, smaller, k_smaller),
        is_greedy_cut(costs, order, larger, k_larger),
    ensures
        k_smaller <= k_larger,
        smaller == larger ==> k_smaller == k_larger,
{
    if k_larger < k_smaller {
        lemma_prefix_cost_monotone(costs, order, k_larger + 1, k_smaller);
    }
    if smaller == larger && k_smaller < k_larger {
        lemma_prefix_cost_monotone(costs, order, k_smaller + 1, k_larger);
    }
}

/// What the budget leaves is fixed by the groups, the budget and the
/// costs: two results agree in the groups and records they keep and in
/// their counts.
pub proof fn lemma_budget_is_determined(
    groups: Seq<DomainRecords>,
    budget: int,
    costs: Seq<usize>,
    one: BudgetResult,
    other: BudgetResult,
)
    requires
        budget_applied(groups, budget, costs, one),
        budget_applied(groups, budget, costs, other),
    ensures
        groups_view(one.kept@) == groups_view(other.kept@),
        one.dropped_count == other.dropped_count,
        one.dropped_domain_count == other.dropped_domain_count,
{
    let (o1, k1) = choose|order: Seq<usize>, k: int| #[trigger]
        budget_applied_with(groups, budget, costs, one, order, k);
    let (o2, k2) = choose|order: Seq<usize>, k: int| #[trigger]
        budget_applied_with(groups, budget, costs, other, order, k);
    lemma_stable_order_unique(flat_keys(groups), o1, o2);
    lemma_greedy_cut_monotone(costs, o1, budget, budget, k1, k2);
}

/// With a larger budget no fewer records are kept, so no more are dropped.
pub proof fn lemma_larger_budget_drops_less(
    groups: Seq<DomainRecords>,
    smaller: int,
    larger: int,
    costs: Seq<usize>,
    tight: BudgetResult,
    loose: BudgetResult,
)
    requires
        smaller <= larger,
        budget_applied(groups, smaller, costs, tight),
        budget_applied(groups, larger, costs, loose),
    ensures
        loose.dropped_count <= tight.dropped_count,
{
    let (o1, k1) = choose|order: Seq<usize>, k: int| #[trigger]
        budget_applied_with(groups, smaller, costs, tight, order, k);
    let (o2, k2) = choose|order: Seq<usize>, k: int| #[trigger]
        budget_applied_with(groups, larger, costs, loose, order, k);
    lemma_stable_order_unique(flat_keys(groups), o1, o2);
    lemma_greedy_cut_monotone(costs, o1, smaller, larger, k1, k2);
}

} // verus!
