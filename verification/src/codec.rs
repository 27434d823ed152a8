//! The stored form of a record: an object with a member `type` that tells
//! its kind, and one member for each field that the record has.

use crate::error::MulchError;
use crate::storage::{
    has_key, is_direct_form, is_legacy, is_legacy_form, is_migration_of, migrate_legacy_outcome,
    JsonMember, JsonValue,
};
use crate::text::{opt_string_view, str_eq, strs};
use crate::types::{
    Classification, Evidence, ExpertiseRecord, Outcome, OutcomeStatus, RecordType,
};
use crate::values::{
    classification_named, parse_classification, parse_outcome_status, status_named,
};
use vstd::prelude::*;

verus! {

// ── Members of an object ───────────────────────────────────────────────────

/// The value of the first member with the key, if there is one.
pub open spec fn lookup(members: Seq<JsonMember>, key: Seq<char>) -> Option<JsonValue>
    decreases members.len(),
{
    if members.len() == 0 {
        None
    } else {
        match lookup(members.drop_last(), key) {
            Some(v) => Some(v),
            None => if members.last().key@ == key {
                Some(members.last().value)
            } else {
                None
            },
        }
    }
}

/// The keys of the members, in order.
pub open spec fn keys_of(members: Seq<JsonMember>) -> Seq<Seq<char>> {
    Seq::new(members.len(), |i: int| members[i].key@)
}

/// What a lookup finds after one more member was added.
pub proof fn lemma_lookup_push(members: Seq<JsonMember>, m: JsonMember, key: Seq<char>)
    ensures
        lookup(members.push(m), key) == match lookup(members, key) {
            Some(v) => Some(v),
            None => if m.key@ == key {
                Some(m.value)
            } else {
                None
            },
        },
{
    assert(members.push(m).drop_last() =~= members);
}

/// The value of the first member with the key.
pub fn get_member<'a>(members: &'a Vec<JsonMember>, key: &str) -> (r: Option<&'a JsonValue>)
    ensures
        match r {
            Some(v) => lookup(members@, key@) == Some(*v),
            None => lookup(members@, key@) is None,
        },
{
    let mut i: usize = 0;
    assert(members@.take(0) =~= Seq::empty());
    while i < members.len()
        invariant
            i <= members@.len(),
            lookup(members@.take(i as int), key@) is None,
        decreases members.len() - i,
    {
        proof {
            assert(members@.take(i + 1) =~= members@.take(i as int).push(members@[i as int]));
            lemma_lookup_push(members@.take(i as int), members@[i as int], key@);
        }
        if str_eq(members[i].key.as_str(), key) {
            proof {
                lemma_lookup_prefix(members@, i + 1, key@);
            }
            return Some(&members[i].value);
        }
        i += 1;
    }
    assert(members@.take(members@.len() as int) =~= members@);
    None
}

/// What a lookup finds in the first members, it finds in all.
pub proof fn lemma_lookup_prefix(members: Seq<JsonMember>, n: int, key: Seq<char>)
    requires
        0 <= n <= members.len(),
        lookup(members.take(n), key) is Some,
    ensures
        lookup(members, key) == lookup(members.take(n), key),
    decreases members.len() - n,
{
    if n < members.len() {
        assert(members.take(n + 1) =~= members.take(n).push(members[n]));
        lemma_lookup_push(members.take(n), members[n], key);
        lemma_lookup_prefix(members, n + 1, key);
    } else {
        assert(members.take(n) =~= members);
    }
}

// ── Reading values ─────────────────────────────────────────────────────────

/// An optional text: a missing member and `null` stand for none. The
/// outer `None` says that the member is neither text nor missing.
pub open spec fn opt_text(v: Option<JsonValue>) -> Option<Option<Seq<char>>> {
    match v {
        None => Some(None),
        Some(JsonValue::Null) => Some(None),
        Some(JsonValue::Text(s)) => Some(Some(s@)),
        Some(_) => None,
    }
}

/// A text that has to be there.
pub open spec fn req_text(v: Option<JsonValue>) -> Option<Seq<char>> {
    match v {
        Some(JsonValue::Text(s)) => Some(s@),
        _ => None,
    }
}

/// An optional number, as its numeral.
pub open spec fn opt_number(v: Option<JsonValue>) -> Option<Option<Seq<char>>> {
    match v {
        None => Some(None),
        Some(JsonValue::Null) => Some(None),
        Some(JsonValue::Number(s)) => Some(Some(s@)),
        Some(_) => None,
    }
}

/// Every item is a text.
pub open spec fn all_text(items: Seq<JsonValue>) -> bool {
    forall|i: int| 0 <= i < items.len() ==> (#[trigger] items[i]) is Text
}

/// The texts of the items.
pub open spec fn texts_of(items: Seq<JsonValue>) -> Seq<Seq<char>> {
    Seq::new(items.len(), |i: int| items[i]->Text_0@)
}

/// An optional list of texts.
pub open spec fn opt_texts(v: Option<JsonValue>) -> Option<Option<Seq<Seq<char>>>> {
    match v {
        None => Some(None),
        Some(JsonValue::Null) => Some(None),
        Some(JsonValue::Array(items)) => if all_text(items@) {
            Some(Some(texts_of(items@)))
        } else {
            None
        },
        Some(_) => None,
    }
}

/// The view of an optional list of strings.
pub open spec fn opt_strs(v: Option<Vec<String>>) -> Option<Seq<Seq<char>>> {
    match v {
        Some(list) => Some(strs(list@)),
        None => None,
    }
}

/// Reads an optional text.
pub fn read_opt_text(v: Option<&JsonValue>) -> (r: Option<Option<String>>)
    ensures
        match r {
            Some(t) => opt_text(deref_opt(v)) == Some(opt_string_view(t)),
            None => opt_text(deref_opt(v)) is None,
        },
{
    match v {
        None => Some(None),
        Some(JsonValue::Null) => Some(None),
        Some(JsonValue::Text(s)) => Some(Some(s.clone())),
        Some(_) => None,
    }
}

/// The value behind an optional reference.
pub open spec fn deref_opt(v: Option<&JsonValue>) -> Option<JsonValue> {
    match v {
        Some(r) => Some(*r),
        None => None,
    }
}

/// Reads a text that has to be there.
pub fn read_req_text(v: Option<&JsonValue>) -> (r: Option<String>)
    ensures
        opt_string_view(r) == req_text(deref_opt(v)),
{
    match v {
        Some(JsonValue::Text(s)) => Some(s.clone()),
        _ => None,
    }
}

/// Reads an optional number as its numeral.
pub fn read_opt_number(v: Option<&JsonValue>) -> (r: Option<Option<String>>)
    ensures
        match r {
            Some(t) => opt_number(deref_opt(v)) == Some(opt_string_view(t)),
            None => opt_number(deref_opt(v)) is None,
        },
{
    match v {
        None => Some(None),
        Some(JsonValue::Null) => Some(None),
        Some(JsonValue::Number(s)) => Some(Some(s.clone())),
        Some(_) => None,
    }
}

/// Reads an optional list of texts.
pub fn read_opt_texts(v: Option<&JsonValue>) -> (r: Option<Option<Vec<String>>>)
    ensures
        match r {
            Some(t) => opt_texts(deref_opt(v)) == Some(opt_strs(t)),
            None => opt_texts(deref_opt(v)) is None,
        },
{
    match v {
        None => Some(None),
        Some(JsonValue::Null) => Some(None),
        Some(JsonValue::Array(items)) => {
            let mut out: Vec<String> = Vec::new();
            let mut i: usize = 0;
            while i < items.len()
                invariant
                    i <= items@.len(),
                    out@.len() == i,
                    deref_opt(v) matches Some(JsonValue::Array(list)) && list@ == items@,
                    forall|j: int| 0 <= j < i ==> (#[trigger] items@[j]) is Text,
                    forall|j: int| 0 <= j < i ==> (#[trigger] out@[j])@ == items@[j]->Text_0@,
                decreases items.len() - i,
            {
                match &items[i] {
                    JsonValue::Text(s) => {
                        out.push(s.clone());
                    },
                    _ => {
                        assert(!(items@[i as int] is Text));
                        assert(!all_text(items@));
                        return None;
                    },
                }
                i += 1;
            }
            assert(strs(out@) =~= texts_of(items@));
            Some(Some(out))
        },
        Some(_) => None,
    }
}

// ── What a record says ─────────────────────────────────────────────────────

/// The provenance of a record, as texts.
pub struct EvidenceView {
    pub commit: Option<Seq<char>>,
    pub date: Option<Seq<char>>,
    pub issue: Option<Seq<char>>,
    pub file: Option<Seq<char>>,
    pub bead: Option<Seq<char>>,
}

/// One outcome, as texts.
pub struct OutcomeView {
    pub status: OutcomeStatus,
    pub duration: Option<Seq<char>>,
    pub test_results: Option<Seq<char>>,
    pub agent: Option<Seq<char>>,
    pub notes: Option<Seq<char>>,
    pub recorded_at: Option<Seq<char>>,
}

/// The fields that belong to the kind of a record. `first` is the field
/// that is unique for the kind; `second` is the other text that the kind
/// requires, where it requires one.
pub struct OwnView {
    pub first: Seq<char>,
    pub second: Option<Seq<char>>,
    pub files: Option<Seq<Seq<char>>>,
    pub date: Option<Seq<char>>,
}

/// The fields that every record has, but for its lists.
pub struct SharedView {
    pub id: Option<Seq<char>>,
    pub classification: Classification,
    pub recorded_at: Seq<char>,
    pub evidence: Option<EvidenceView>,
}

/// The lists of texts that every record may have.
pub struct LinksView {
    pub tags: Option<Seq<Seq<char>>>,
    pub relates_to: Option<Seq<Seq<char>>>,
    pub supersedes: Option<Seq<Seq<char>>>,
}

/// Everything that a record says, as texts.
pub struct RecordView {
    pub kind: RecordType,
    pub own: OwnView,
    pub shared: SharedView,
    pub links: LinksView,
    pub outcomes: Option<Seq<OutcomeView>>,
}

pub open spec fn evidence_view(e: Evidence) -> EvidenceView {
    EvidenceView {
        commit: opt_string_view(e.commit),
        date: opt_string_view(e.date),
        issue: opt_string_view(e.issue),
        file: opt_string_view(e.file),
        bead: opt_string_view(e.bead),
    }
}

pub open spec fn outcome_view(o: Outcome) -> OutcomeView {
    OutcomeView {
        status: o.status,
        duration: opt_string_view(o.duration),
        test_results: opt_string_view(o.test_results),
        agent: opt_string_view(o.agent),
        notes: opt_string_view(o.notes),
        recorded_at: opt_string_view(o.recorded_at),
    }
}

pub open spec fn outcome_views(outcomes: Seq<Outcome>) -> Seq<OutcomeView> {
    Seq::new(outcomes.len(), |i: int| outcome_view(outcomes[i]))
}

/// The second required text of a record, where its kind has one.
pub open spec fn second_text(r: ExpertiseRecord) -> Option<Seq<char>> {
    match r {
        ExpertiseRecord::Convention { .. } => None,
        ExpertiseRecord::Pattern { description, .. } => Some(description@),
        ExpertiseRecord::Failure { resolution, .. } => Some(resolution@),
        ExpertiseRecord::Decision { rationale, .. } => Some(rationale@),
        ExpertiseRecord::Reference { description, .. } => Some(description@),
        ExpertiseRecord::Guide { description, .. } => Some(description@),
    }
}

/// The date of a decision.
pub open spec fn date_text(r: ExpertiseRecord) -> Option<Seq<char>> {
    match r {
        ExpertiseRecord::Decision { date, .. } => opt_string_view(date),
        _ => None,
    }
}

pub open spec fn own_view(r: ExpertiseRecord) -> OwnView {
    OwnView {
        first: r.unique_key(),
        second: second_text(r),
        files: opt_strs(r.spec_files()),
        date: date_text(r),
    }
}

pub open spec fn shared_view(r: ExpertiseRecord) -> SharedView {
    SharedView {
        id: r.id_view(),
        classification: r.spec_classification(),
        recorded_at: r.spec_recorded_at()@,
        evidence: match r.spec_evidence() {
            Some(e) => Some(evidence_view(e)),
            None => None,
        },
    }
}

pub open spec fn links_view(r: ExpertiseRecord) -> LinksView {
    LinksView {
        tags: opt_strs(r.spec_tags()),
        relates_to: opt_strs(r.spec_relates_to()),
        supersedes: opt_strs(r.spec_supersedes()),
    }
}

/// Everything that the record says.
pub open spec fn record_view(r: ExpertiseRecord) -> RecordView {
    RecordView {
        kind: r.kind(),
        own: own_view(r),
        shared: shared_view(r),
        links: links_view(r),
        outcomes: match r.spec_outcomes() {
            Some(list) => Some(outcome_views(list@)),
            None => None,
        },
    }
}

// ── The stored form, read ──────────────────────────────────────────────────

/// The kind with the given name, if there is one.
pub open spec fn kind_named(s: Seq<char>) -> Option<RecordType> {
    if s == RecordType::Convention.name() {
        Some(RecordType::Convention)
    } else if s == RecordType::Pattern.name() {
        Some(RecordType::Pattern)
    } else if s == RecordType::Failure.name() {
        Some(RecordType::Failure)
    } else if s == RecordType::Decision.name() {
        Some(RecordType::Decision)
    } else if s == RecordType::Reference.name() {
        Some(RecordType::Reference)
    } else if s == RecordType::Guide.name() {
        Some(RecordType::Guide)
    } else {
        None
    }
}

/// The key of the field that is unique for the kind.
pub open spec fn first_key(kind: RecordType) -> Seq<char> {
    match kind {
        RecordType::Convention => "content"@,
        RecordType::Failure => "description"@,
        RecordType::Decision => "title"@,
        _ => "name"@,
    }
}

/// The key of the second required text of the kind.
pub open spec fn second_key(kind: RecordType) -> Option<Seq<char>> {
    match kind {
        RecordType::Convention => None,
        RecordType::Failure => Some("resolution"@),
        RecordType::Decision => Some("rationale"@),
        _ => Some("description"@),
    }
}

/// Records of these kinds may list files.
pub open spec fn has_files(kind: RecordType) -> bool {
    kind == RecordType::Pattern || kind == RecordType::Reference
}

/// The provenance that a member holds: none where the member is missing
/// or `null`. The outer `None` says that the member is malformed.
pub open spec fn decoded_evidence(v: Option<JsonValue>) -> Option<Option<EvidenceView>> {
    match v {
        None => Some(None),
        Some(JsonValue::Null) => Some(None),
        Some(JsonValue::Object(members)) => {
            let commit = opt_text(lookup(members@, "commit"@));
            let date = opt_text(lookup(members@, "date"@));
            let issue = opt_text(lookup(members@, "issue"@));
            let file = opt_text(lookup(members@, "file"@));
            let bead = opt_text(lookup(members@, "bead"@));
            if commit is Some && date is Some && issue is Some && file is Some && bead is Some {
                Some(
                    Some(
                        EvidenceView {
                            commit: commit->0,
                            date: date->0,
                            issue: issue->0,
                            file: file->0,
                            bead: bead->0,
                        },
                    ),
                )
            } else {
                None
            }
        },
        Some(_) => None,
    }
}

/// The outcome that a value holds, if it holds one.
pub open spec fn decoded_outcome(v: JsonValue) -> Option<OutcomeView> {
    match v {
        JsonValue::Object(members) => {
            let status = match req_text(lookup(members@, "status"@)) {
                Some(t) => status_named(t),
                None => None,
            };
            let duration = opt_number(lookup(members@, "duration"@));
            let test_results = opt_text(lookup(members@, "test_results"@));
            let agent = opt_text(lookup(members@, "agent"@));
            let notes = opt_text(lookup(members@, "notes"@));
            let recorded_at = opt_text(lookup(members@, "recorded_at"@));
            if status is Some && duration is Some && test_results is Some && agent is Some
                && notes is Some && recorded_at is Some {
                Some(
                    OutcomeView {
                        status: status->0,
                        duration: duration->0,
                        test_results: test_results->0,
                        agent: agent->0,
                        notes: notes->0,
                        recorded_at: recorded_at->0,
                    },
                )
            } else {
                None
            }
        },
        _ => None,
    }
}

/// The outcomes that a member holds.
pub open spec fn decoded_outcomes(v: Option<JsonValue>) -> Option<Option<Seq<OutcomeView>>> {
    match v {
        None => Some(None),
        Some(JsonValue::Null) => Some(None),
        Some(JsonValue::Array(items)) => if forall|i: int|
            0 <= i < items@.len() ==> decoded_outcome(#[trigger] items@[i]) is Some {
            Some(Some(Seq::new(items@.len(), |i: int| decoded_outcome(items@[i])->0)))
        } else {
            None
        },
        Some(_) => None,
    }
}

/// The fields of the kind that the members hold.
pub open spec fn decoded_own(m: Seq<JsonMember>, kind: RecordType) -> Option<OwnView> {
    let first = req_text(lookup(m, first_key(kind)));
    let second = match second_key(kind) {
        Some(key) => match req_text(lookup(m, key)) {
            Some(t) => Some(Some(t)),
            None => None,
        },
        None => Some(None),
    };
    let files = if has_files(kind) {
        opt_texts(lookup(m, "files"@))
    } else {
        Some(None)
    };
    let date = if kind == RecordType::Decision {
        opt_text(lookup(m, "date"@))
    } else {
        Some(None)
    };
    if first is Some && second is Some && files is Some && date is Some {
        Some(OwnView { first: first->0, second: second->0, files: files->0, date: date->0 })
    } else {
        None
    }
}

/// The shared fields that the members hold.
pub open spec fn decoded_shared(m: Seq<JsonMember>) -> Option<SharedView> {
    let id = opt_text(lookup(m, "id"@));
    let classification = match req_text(lookup(m, "classification"@)) {
        Some(t) => classification_named(t),
        None => None,
    };
    let recorded_at = req_text(lookup(m, "recorded_at"@));
    let evidence = decoded_evidence(lookup(m, "evidence"@));
    if id is Some && classification is Some && recorded_at is Some && evidence is Some {
        Some(
            SharedView {
                id: id->0,
                classification: classification->0,
                recorded_at: recorded_at->0,
                evidence: evidence->0,
            },
        )
    } else {
        None
    }
}

/// The lists that the members hold.
pub open spec fn decoded_links(m: Seq<JsonMember>) -> Option<LinksView> {
    let tags = opt_texts(lookup(m, "tags"@));
    let relates_to = opt_texts(lookup(m, "relates_to"@));
    let supersedes = opt_texts(lookup(m, "supersedes"@));
    if tags is Some && relates_to is Some && supersedes is Some {
        Some(LinksView { tags: tags->0, relates_to: relates_to->0, supersedes: supersedes->0 })
    } else {
        None
    }
}

/// The kind that the members name.
pub open spec fn decoded_kind(m: Seq<JsonMember>) -> Option<RecordType> {
    match req_text(lookup(m, "type"@)) {
        Some(t) => kind_named(t),
        None => None,
    }
}

/// The record that a value holds, if it holds one: an object whose member
/// `type` names a kind, with the texts that the kind requires, a tier, a
/// time of recording, and well-formed optional members. Members that no
/// field corresponds to do not matter.
pub open spec fn decoded(v: JsonValue) -> Option<RecordView> {
    match v {
        JsonValue::Object(members) => {
            let m = members@;
            match decoded_kind(m) {
                None => None,
                Some(kind) => {
                    let own = decoded_own(m, kind);
                    let shared = decoded_shared(m);
                    let links = decoded_links(m);
                    let outcomes = decoded_outcomes(lookup(m, "outcomes"@));
                    if own is Some && shared is Some && links is Some && outcomes is Some {
                        Some(
                            RecordView {
                                kind,
                                own: own->0,
                                shared: shared->0,
                                links: links->0,
                                outcomes: outcomes->0,
                            },
                        )
                    } else {
                        None
                    }
                },
            }
        },
        _ => None,
    }
}

/// What is said of a value that holds no record.
pub open spec fn not_a_record_text() -> Seq<char> {
    "Not an expertise record"@
}

fn not_a_record() -> (e: MulchError)
    ensures
        e matches MulchError::ValidationError(detail) && detail@ == not_a_record_text(),
{
    MulchError::ValidationError("Not an expertise record".to_owned())
}

fn parse_kind(s: &str) -> (r: Option<RecordType>)
    ensures
        r == kind_named(s@),
{
    if str_eq(s, RecordType::Convention.as_str()) {
        Some(RecordType::Convention)
    } else if str_eq(s, RecordType::Pattern.as_str()) {
        Some(RecordType::Pattern)
    } else if str_eq(s, RecordType::Failure.as_str()) {
        Some(RecordType::Failure)
    } else if str_eq(s, RecordType::Decision.as_str()) {
        Some(RecordType::Decision)
    } else if str_eq(s, RecordType::Reference.as_str()) {
        Some(RecordType::Reference)
    } else if str_eq(s, RecordType::Guide.as_str()) {
        Some(RecordType::Guide)
    } else {
        None
    }
}

fn decode_evidence(v: Option<&JsonValue>) -> (r: Option<Option<Evidence>>)
    ensures
        match r {
            Some(Some(e)) => decoded_evidence(deref_opt(v)) == Some(Some(evidence_view(e))),
            Some(None) => decoded_evidence(deref_opt(v)) == Some(None::<EvidenceView>),
            None => decoded_evidence(deref_opt(v)) is None,
        },
{
    match v {
        None => Some(None),
        Some(JsonValue::Null) => Some(None),
        Some(JsonValue::Object(members)) => {
            let commit = match read_opt_text(get_member(members, "commit")) {
                Some(t) => t,
                None => {
                    return None;
                },
            };
            let date = match read_opt_text(get_member(members, "date")) {
                Some(t) => t,
                None => {
                    return None;
                },
            };
            let issue = match read_opt_text(get_member(members, "issue")) {
                Some(t) => t,
                None => {
                    return None;
                },
            };
            let file = match read_opt_text(get_member(members, "file")) {
                Some(t) => t,
                None => {
                    return None;
                },
            };
            let bead = match read_opt_text(get_member(members, "bead")) {
                Some(t) => t,
                None => {
                    return None;
                },
            };
            Some(Some(Evidence { commit, date, issue, file, bead }))
        },
        Some(_) => None,
    }
}

fn decode_outcome(v: &JsonValue) -> (r: Option<Outcome>)
    ensures
        match r {
            Some(o) => decoded_outcome(*v) == Some(outcome_view(o)),
            None => decoded_outcome(*v) is None,
        },
{
    match v {
        JsonValue::Object(members) => {
            let status = match read_req_text(get_member(members, "status")) {
                Some(t) => match parse_outcome_status(t.as_str()) {
                    Ok(status) => status,
                    Err(_) => {
                        return None;
                    },
                },
                None => {
                    return None;
                },
            };
            let duration = match read_opt_number(get_member(members, "duration")) {
                Some(t) => t,
                None => {
                    return None;
                },
            };
            let test_results = match read_opt_text(get_member(members, "test_results")) {
                Some(t) => t,
                None => {
                    return None;
                },
            };
            let agent = match read_opt_text(get_member(members, "agent")) {
                Some(t) => t,
                None => {
                    return None;
                },
            };
            let notes = match read_opt_text(get_member(members, "notes")) {
                Some(t) => t,
                None => {
                    return None;
                },
            };
            let recorded_at = match read_opt_text(get_member(members, "recorded_at")) {
                Some(t) => t,
                None => {
                    return None;
                },
            };
            Some(Outcome { status, duration, test_results, agent, notes, recorded_at })
        },
        _ => None,
    }
}

fn decode_outcomes(v: Option<&JsonValue>) -> (r: Option<Option<Vec<Outcome>>>)
    ensures
        match r {
            Some(Some(list)) => decoded_outcomes(deref_opt(v)) == Some(Some(outcome_views(list@))),
            Some(None) => decoded_outcomes(deref_opt(v)) == Some(None::<Seq<OutcomeView>>),
            None => decoded_outcomes(deref_opt(v)) is None,
        },
{
    match v {
        None => Some(None),
        Some(JsonValue::Null) => Some(None),
        Some(JsonValue::Array(items)) => {
            let mut out: Vec<Outcome> = Vec::new();
            let mut i: usize = 0;
            while i < items.len()
                invariant
                    i <= items@.len(),
                    out@.len() == i,
                    deref_opt(v) matches Some(JsonValue::Array(list)) && list@ == items@,
                    forall|j: int|
                        0 <= j < i ==> decoded_outcome(#[trigger] items@[j]) == Some(
                            outcome_view(out@[j]),
                        ),
                decreases items.len() - i,
            {
                match decode_outcome(&items[i]) {
                    Some(o) => {
                        out.push(o);
                    },
                    None => {
                        assert(decoded_outcome(items@[i as int]) is None);
                        return None;
                    },
                }
                i += 1;
            }
            assert(outcome_views(out@) =~= Seq::new(
                items@.len(),
                |i: int| decoded_outcome(items@[i])->0,
            ));
            Some(Some(out))
        },
        Some(_) => None,
    }
}

/// The fields of the kind, as they are read.
struct OwnFields {
    first: String,
    second: String,
    files: Option<Vec<String>>,
    date: Option<String>,
}

/// The shared fields, as they are read.
struct SharedFields {
    id: Option<String>,
    classification: Classification,
    recorded_at: String,
    evidence: Option<Evidence>,
}

/// The lists, as they are read.
struct LinkFields {
    tags: Option<Vec<String>>,
    relates_to: Option<Vec<String>>,
    supersedes: Option<Vec<String>>,
}

impl OwnFields {
    spec fn view_for(self, kind: RecordType) -> OwnView {
        OwnView {
            first: self.first@,
            second: if kind == RecordType::Convention {
                None
            } else {
                Some(self.second@)
            },
            files: opt_strs(self.files),
            date: opt_string_view(self.date),
        }
    }
}

impl SharedFields {
    spec fn view(self) -> SharedView {
        SharedView {
            id: opt_string_view(self.id),
            classification: self.classification,
            recorded_at: self.recorded_at@,
            evidence: match self.evidence {
                Some(e) => Some(evidence_view(e)),
                None => None,
            },
        }
    }
}

impl LinkFields {
    spec fn view(self) -> LinksView {
        LinksView {
            tags: opt_strs(self.tags),
            relates_to: opt_strs(self.relates_to),
            supersedes: opt_strs(self.supersedes),
        }
    }
}

fn decode_own(members: &Vec<JsonMember>, kind: RecordType) -> (r: Option<OwnFields>)
    ensures
        match r {
            Some(f) => decoded_own(members@, kind) == Some(f.view_for(kind)) && (kind
                != RecordType::Decision ==> f.date is None) && (!has_files(kind) ==> f.files
                is None),
            None => decoded_own(members@, kind) is None,
        },
{
    let first_name = match kind {
        RecordType::Convention => "content",
        RecordType::Failure => "description",
        RecordType::Decision => "title",
        _ => "name",
    };
    let first = match read_req_text(get_member(members, first_name)) {
        Some(t) => t,
        None => {
            return None;
        },
    };
    let second_name = match kind {
        RecordType::Convention => None,
        RecordType::Failure => Some("resolution"),
        RecordType::Decision => Some("rationale"),
        _ => Some("description"),
    };
    let second = match second_name {
        Some(key) => match read_req_text(get_member(members, key)) {
            Some(t) => t,
            None => {
                return None;
            },
        },
        None => String::new(),
    };
    let files = match kind {
        RecordType::Pattern | RecordType::Reference => match read_opt_texts(
            get_member(members, "files"),
        ) {
            Some(t) => t,
            None => {
                return None;
            },
        },
        _ => None,
    };
    let date = match kind {
        RecordType::Decision => match read_opt_text(get_member(members, "date")) {
            Some(t) => t,
            None => {
                return None;
            },
        },
        _ => None,
    };
    Some(OwnFields { first, second, files, date })
}

fn decode_shared(members: &Vec<JsonMember>) -> (r: Option<SharedFields>)
    ensures
        match r {
            Some(f) => decoded_shared(members@) == Some(f.view()),
            None => decoded_shared(members@) is None,
        },
{
    let id = match read_opt_text(get_member(members, "id")) {
        Some(t) => t,
        None => {
            return None;
        },
    };
    let classification = match read_req_text(get_member(members, "classification")) {
        Some(t) => match parse_classification(t.as_str()) {
            Ok(c) => c,
            Err(_) => {
                return None;
            },
        },
        None => {
            return None;
        },
    };
    let recorded_at = match read_req_text(get_member(members, "recorded_at")) {
        Some(t) => t,
        None => {
            return None;
        },
    };
    let evidence = match decode_evidence(get_member(members, "evidence")) {
        Some(e) => e,
        None => {
            return None;
        },
    };
    Some(SharedFields { id, classification, recorded_at, evidence })
}

fn decode_links(members: &Vec<JsonMember>) -> (r: Option<LinkFields>)
    ensures
        match r {
            Some(f) => decoded_links(members@) == Some(f.view()),
            None => decoded_links(members@) is None,
        },
{
    let tags = match read_opt_texts(get_member(members, "tags")) {
        Some(t) => t,
        None => {
            return None;
        },
    };
    let relates_to = match read_opt_texts(get_member(members, "relates_to")) {
        Some(t) => t,
        None => {
            return None;
        },
    };
    let supersedes = match read_opt_texts(get_member(members, "supersedes")) {
        Some(t) => t,
        None => {
            return None;
        },
    };
    Some(LinkFields { tags, relates_to, supersedes })
}

fn decode_kind(members: &Vec<JsonMember>) -> (r: Option<RecordType>)
    ensures
        r == decoded_kind(members@),
{
    match read_req_text(get_member(members, "type")) {
        Some(t) => parse_kind(t.as_str()),
        None => None,
    }
}

fn assemble(
    kind: RecordType,
    own: OwnFields,
    shared: SharedFields,
    links: LinkFields,
    outcomes: Option<Vec<Outcome>>,
) -> (record: ExpertiseRecord)
    requires
        kind != RecordType::Decision ==> own.date is None,
        !has_files(kind) ==> own.files is None,
    ensures
        record_view(record) == (RecordView {
            kind,
            own: own.view_for(kind),
            shared: shared.view(),
            links: links.view(),
            outcomes: match outcomes {
                Some(list) => Some(outcome_views(list@)),
                None => None,
            },
        }),
{
    let id = shared.id;
    let classification = shared.classification;
    let recorded_at = shared.recorded_at;
    let evidence = shared.evidence;
    let tags = links.tags;
    let relates_to = links.relates_to;
    let supersedes = links.supersedes;
    match kind {
        RecordType::Convention => ExpertiseRecord::Convention {
            id,
            content: own.first,
            classification,
            recorded_at,
            evidence,
            tags,
            relates_to,
            supersedes,
            outcomes,
        },
        RecordType::Pattern => ExpertiseRecord::Pattern {
            id,
            name: own.first,
            description: own.second,
            files: own.files,
            classification,
            recorded_at,
            evidence,
            tags,
            relates_to,
            supersedes,
            outcomes,
        },
        RecordType::Failure => ExpertiseRecord::Failure {
            id,
            description: own.first,
            resolution: own.second,
            classification,
            recorded_at,
            evidence,
            tags,
            relates_to,
            supersedes,
            outcomes,
        },
        RecordType::Decision => ExpertiseRecord::Decision {
            id,
            title: own.first,
            rationale: own.second,
            date: own.date,
            classification,
            recorded_at,
            evidence,
            tags,
            relates_to,
            supersedes,
            outcomes,
        },
        RecordType::Reference => ExpertiseRecord::Reference {
            id,
            name: own.first,
            description: own.second,
            files: own.files,
            classification,
            recorded_at,
            evidence,
            tags,
            relates_to,
            supersedes,
            outcomes,
        },
        RecordType::Guide => ExpertiseRecord::Guide {
            id,
            name: own.first,
            description: own.second,
            classification,
            recorded_at,
            evidence,
            tags,
            relates_to,
            supersedes,
            outcomes,
        },
    }
}

/// Reads a record from its stored form.
pub fn decode_record(value: &JsonValue) -> (r: Result<ExpertiseRecord, MulchError>)
    ensures
        match r {
            Ok(record) => decoded(*value) == Some(record_view(record)),
            Err(e) => decoded(*value) is None && (e matches MulchError::ValidationError(detail)
                && detail@ == not_a_record_text()),
        },
{
    let members = match value {
        JsonValue::Object(members) => members,
        _ => {
            return Err(not_a_record());
        },
    };
    let kind = match decode_kind(members) {
        Some(kind) => kind,
        None => {
            return Err(not_a_record());
        },
    };
    let own = match decode_own(members, kind) {
        Some(f) => f,
        None => {
            return Err(not_a_record());
        },
    };
    let shared = match decode_shared(members) {
        Some(f) => f,
        None => {
            return Err(not_a_record());
        },
    };
    let links = match decode_links(members) {
        Some(f) => f,
        None => {
            return Err(not_a_record());
        },
    };
    let outcomes = match decode_outcomes(get_member(members, "outcomes")) {
        Some(o) => o,
        None => {
            return Err(not_a_record());
        },
    };
    Ok(assemble(kind, own, shared, links, outcomes))
}

// ── The stored form, written ───────────────────────────────────────────────

/// A key, where the field is there.
pub open spec fn key_if(present: bool, key: Seq<char>) -> Seq<Seq<char>> {
    if present {
        seq![key]
    } else {
        Seq::empty()
    }
}

/// The keys of the stored form of a provenance, in order.
pub open spec fn evidence_keys(e: EvidenceView) -> Seq<Seq<char>> {
    key_if(e.commit is Some, "commit"@) + key_if(e.date is Some, "date"@) + key_if(
        e.issue is Some,
        "issue"@,
    ) + key_if(e.file is Some, "file"@) + key_if(e.bead is Some, "bead"@)
}

/// The keys of the stored form of an outcome, in order.
pub open spec fn outcome_keys(o: OutcomeView) -> Seq<Seq<char>> {
    seq!["status"@] + key_if(o.duration is Some, "duration"@) + key_if(
        o.test_results is Some,
        "test_results"@,
    ) + key_if(o.agent is Some, "agent"@) + key_if(o.notes is Some, "notes"@) + key_if(
        o.recorded_at is Some,
        "recorded_at"@,
    )
}

/// The keys of the fields of the kind, in order.
pub open spec fn own_keys(kind: RecordType, own: OwnView) -> Seq<Seq<char>> {
    seq![first_key(kind)] + (match second_key(kind) {
        Some(key) => seq![key],
        None => Seq::empty(),
    }) + key_if(own.files is Some, "files"@) + key_if(own.date is Some, "date"@)
}

/// The keys of the lists, in order.
pub open spec fn links_keys(links: LinksView) -> Seq<Seq<char>> {
    key_if(links.tags is Some, "tags"@) + key_if(links.relates_to is Some, "relates_to"@) + key_if(
        links.supersedes is Some,
        "supersedes"@,
    )
}

/// The keys of the stored form of a record, in order: the kind first, then
/// the fields in a fixed order, without those that the record lacks.
pub open spec fn record_keys(r: RecordView) -> Seq<Seq<char>> {
    seq!["type"@] + key_if(r.shared.id is Some, "id"@) + own_keys(r.kind, r.own) + seq![
        "classification"@,
        "recorded_at"@,
    ] + key_if(r.shared.evidence is Some, "evidence"@) + links_keys(r.links) + key_if(
        r.outcomes is Some,
        "outcomes"@,
    )
}

/// The value is an object with exactly the given keys, in order.
pub open spec fn has_keys(v: JsonValue, keys: Seq<Seq<char>>) -> bool {
    v matches JsonValue::Object(members) && keys_of(members@) == keys
}

/// The provenance and the outcomes among the members have their own
/// members in the fixed order and no others.
pub open spec fn parts_in_order(m: Seq<JsonMember>, r: RecordView) -> bool {
    &&& r.shared.evidence matches Some(e) ==> (lookup(m, "evidence"@) matches Some(held)
        && has_keys(held, evidence_keys(e)))
    &&& r.outcomes matches Some(list) ==> (lookup(m, "outcomes"@) matches Some(
        JsonValue::Array(items),
    ) && items@.len() == list.len() && forall|i: int|
        0 <= i < list.len() ==> has_keys(#[trigger] items@[i], outcome_keys(list[i])))
}

/// The value is the stored form of the record: it holds the record, and
/// it, its provenance and its outcomes have their members in the fixed
/// order and no others.
pub open spec fn is_stored_record(v: JsonValue, r: RecordView) -> bool {
    &&& decoded(v) == Some(r)
    &&& has_keys(v, record_keys(r))
    &&& v matches JsonValue::Object(members) && parts_in_order(members@, r)
}

fn put_opt(members: &mut Vec<JsonMember>, key: &str, value: Option<JsonValue>)
    ensures
        keys_of(final(members)@) == keys_of(old(members)@) + key_if(value is Some, key@),
        forall|q: Seq<char>| #[trigger]
            lookup(final(members)@, q) == (match lookup(old(members)@, q) {
                Some(held) => Some(held),
                None => if key@ == q {
                    value
                } else {
                    None
                },
            }),
{
    match value {
        Some(v) => {
            let member = JsonMember { key: key.to_owned(), value: v };
            members.push(member);
            proof {
                assert(keys_of(members@) =~= keys_of(old(members)@) + seq![key@]);
                assert forall|q: Seq<char>| #[trigger]
                    lookup(members@, q) == (match lookup(old(members)@, q) {
                        Some(held) => Some(held),
                        None => if key@ == q {
                            value
                        } else {
                            None
                        },
                    }) by {
                    lemma_lookup_push(old(members)@, member, q);
                }
            }
        },
        None => {
            assert(keys_of(members@) =~= keys_of(old(members)@) + Seq::empty());
        },
    }
}

fn text_value(s: &str) -> (v: JsonValue)
    ensures
        v matches JsonValue::Text(t) && t@ == s@,
{
    JsonValue::Text(s.to_owned())
}

fn opt_text_value(s: &Option<String>) -> (v: Option<JsonValue>)
    ensures
        v is Some == s is Some,
        opt_text(v) == Some(opt_string_view(*s)),
{
    match s {
        Some(t) => Some(JsonValue::Text(t.clone())),
        None => None,
    }
}

fn opt_number_value(s: &Option<String>) -> (v: Option<JsonValue>)
    ensures
        v is Some == s is Some,
        opt_number(v) == Some(opt_string_view(*s)),
{
    match s {
        Some(t) => Some(JsonValue::Number(t.clone())),
        None => None,
    }
}

fn opt_texts_value(list: Option<&[String]>, Ghost(field): Ghost<Option<Vec<String>>>) -> (v: Option<
    JsonValue,
>)
    requires
        crate::types::opt_slice_is(list, field),
    ensures
        v is Some == field is Some,
        opt_texts(v) == Some(opt_strs(field)),
{
    match list {
        Some(texts) => {
            let mut items: Vec<JsonValue> = Vec::new();
            let mut i: usize = 0;
            while i < texts.len()
                invariant
                    i <= texts@.len(),
                    items@.len() == i,
                    forall|j: int|
                        0 <= j < i ==> ((#[trigger] items@[j]) matches JsonValue::Text(t) && t@
                            == texts@[j]@),
                decreases texts.len() - i,
            {
                items.push(text_value(texts[i].as_str()));
                i += 1;
            }
            assert(all_text(items@));
            assert(texts_of(items@) =~= strs(texts@));
            Some(JsonValue::Array(items))
        },
        None => None,
    }
}

/// The names of the statuses differ from one another.
proof fn lemma_status_names()
    ensures
        "success"@ != "failure"@,
        "success"@ != "partial"@,
        "failure"@ != "partial"@,
{
    reveal_strlit("success");
    reveal_strlit("failure");
    reveal_strlit("partial");
    assert("success"@[0] != "failure"@[0]);
    assert("success"@[0] != "partial"@[0]);
    assert("failure"@[0] != "partial"@[0]);
}

/// The names of the tiers differ from one another.
proof fn lemma_tier_names()
    ensures
        "foundational"@ != "tactical"@,
        "foundational"@ != "observational"@,
        "tactical"@ != "observational"@,
{
    reveal_strlit("foundational");
    reveal_strlit("tactical");
    reveal_strlit("observational");
    assert("foundational"@.len() != "tactical"@.len());
    assert("foundational"@.len() != "observational"@.len());
    assert("tactical"@.len() != "observational"@.len());
}

/// The names of the kinds differ from one another.
proof fn lemma_kind_names()
    ensures
        "convention"@ != "pattern"@,
        "convention"@ != "failure"@,
        "convention"@ != "decision"@,
        "convention"@ != "reference"@,
        "convention"@ != "guide"@,
        "pattern"@ != "failure"@,
        "pattern"@ != "decision"@,
        "pattern"@ != "reference"@,
        "pattern"@ != "guide"@,
        "failure"@ != "decision"@,
        "failure"@ != "reference"@,
        "failure"@ != "guide"@,
        "decision"@ != "reference"@,
        "decision"@ != "guide"@,
        "reference"@ != "guide"@,
{
    reveal_strlit("convention");
    reveal_strlit("pattern");
    reveal_strlit("failure");
    reveal_strlit("decision");
    reveal_strlit("reference");
    reveal_strlit("guide");
    assert("convention"@.len() != "pattern"@.len());
    assert("convention"@.len() != "failure"@.len());
    assert("convention"@.len() != "decision"@.len());
    assert("convention"@.len() != "reference"@.len());
    assert("convention"@.len() != "guide"@.len());
    assert("pattern"@[0] != "failure"@[0]);
    assert("pattern"@.len() != "decision"@.len());
    assert("pattern"@.len() != "reference"@.len());
    assert("pattern"@.len() != "guide"@.len());
    assert("failure"@.len() != "decision"@.len());
    assert("failure"@.len() != "reference"@.len());
    assert("failure"@.len() != "guide"@.len());
    assert("decision"@.len() != "reference"@.len());
    assert("decision"@.len() != "guide"@.len());
    assert("reference"@.len() != "guide"@.len());
}

/// The keys of a provenance differ from one another.
proof fn lemma_evidence_keys()
    ensures
        "commit"@ != "date"@,
        "commit"@ != "issue"@,
        "commit"@ != "file"@,
        "commit"@ != "bead"@,
        "date"@ != "issue"@,
        "date"@ != "file"@,
        "date"@ != "bead"@,
        "issue"@ != "file"@,
        "issue"@ != "bead"@,
        "file"@ != "bead"@,
{
    reveal_strlit("commit");
    reveal_strlit("date");
    reveal_strlit("issue");
    reveal_strlit("file");
    reveal_strlit("bead");
    assert("commit"@.len() != "date"@.len());
    assert("commit"@.len() != "issue"@.len());
    assert("commit"@.len() != "file"@.len());
    assert("commit"@.len() != "bead"@.len());
    assert("date"@.len() != "issue"@.len());
    assert("date"@[0] != "file"@[0]);
    assert("date"@[0] != "bead"@[0]);
    assert("issue"@.len() != "file"@.len());
    assert("issue"@.len() != "bead"@.len());
    assert("file"@[0] != "bead"@[0]);
}

/// The keys of an outcome differ from one another.
proof fn lemma_outcome_keys()
    ensures
        "status"@ != "duration"@,
        "status"@ != "test_results"@,
        "status"@ != "agent"@,
        "status"@ != "notes"@,
        "status"@ != "recorded_at"@,
        "duration"@ != "test_results"@,
        "duration"@ != "agent"@,
        "duration"@ != "notes"@,
        "duration"@ != "recorded_at"@,
        "test_results"@ != "agent"@,
        "test_results"@ != "notes"@,
        "test_results"@ != "recorded_at"@,
        "agent"@ != "notes"@,
        "agent"@ != "recorded_at"@,
        "notes"@ != "recorded_at"@,
{
    reveal_strlit("status");
    reveal_strlit("duration");
    reveal_strlit("test_results");
    reveal_strlit("agent");
    reveal_strlit("notes");
    reveal_strlit("recorded_at");
    assert("status"@.len() != "duration"@.len());
    assert("status"@.len() != "test_results"@.len());
    assert("status"@.len() != "agent"@.len());
    assert("status"@.len() != "notes"@.len());
    assert("status"@.len() != "recorded_at"@.len());
    assert("duration"@.len() != "test_results"@.len());
    assert("duration"@.len() != "agent"@.len());
    assert("duration"@.len() != "notes"@.len());
    assert("duration"@.len() != "recorded_at"@.len());
    assert("test_results"@.len() != "agent"@.len());
    assert("test_results"@.len() != "notes"@.len());
    assert("test_results"@.len() != "recorded_at"@.len());
    assert("agent"@[0] != "notes"@[0]);
    assert("agent"@.len() != "recorded_at"@.len());
    assert("notes"@.len() != "recorded_at"@.len());
}

/// The keys of a record differ from one another.
proof fn lemma_record_keys()
    ensures
        "type"@ != "id"@,
        "type"@ != "content"@,
        "type"@ != "name"@,
        "type"@ != "description"@,
        "type"@ != "resolution"@,
        "type"@ != "title"@,
        "type"@ != "rationale"@,
        "type"@ != "files"@,
        "type"@ != "date"@,
        "type"@ != "classification"@,
        "type"@ != "recorded_at"@,
        "type"@ != "evidence"@,
        "type"@ != "tags"@,
        "type"@ != "relates_to"@,
        "type"@ != "supersedes"@,
        "type"@ != "outcomes"@,
        "id"@ != "content"@,
        "id"@ != "name"@,
        "id"@ != "description"@,
        "id"@ != "resolution"@,
        "id"@ != "title"@,
        "id"@ != "rationale"@,
        "id"@ != "files"@,
        "id"@ != "date"@,
        "id"@ != "classification"@,
        "id"@ != "recorded_at"@,
        "id"@ != "evidence"@,
        "id"@ != "tags"@,
        "id"@ != "relates_to"@,
        "id"@ != "supersedes"@,
        "id"@ != "outcomes"@,
        "content"@ != "name"@,
        "content"@ != "description"@,
        "content"@ != "resolution"@,
        "content"@ != "title"@,
        "content"@ != "rationale"@,
        "content"@ != "files"@,
        "content"@ != "date"@,
        "content"@ != "classification"@,
        "content"@ != "recorded_at"@,
        "content"@ != "evidence"@,
        "content"@ != "tags"@,
        "content"@ != "relates_to"@,
        "content"@ != "supersedes"@,
        "content"@ != "outcomes"@,
        "name"@ != "description"@,
        "name"@ != "resolution"@,
        "name"@ != "title"@,
        "name"@ != "rationale"@,
        "name"@ != "files"@,
        "name"@ != "date"@,
        "name"@ != "classification"@,
        "name"@ != "recorded_at"@,
        "name"@ != "evidence"@,
        "name"@ != "tags"@,
        "name"@ != "relates_to"@,
        "name"@ != "supersedes"@,
        "name"@ != "outcomes"@,
        "description"@ != "resolution"@,
        "description"@ != "title"@,
        "description"@ != "rationale"@,
        "description"@ != "files"@,
        "description"@ != "date"@,
        "description"@ != "classification"@,
        "description"@ != "recorded_at"@,
        "description"@ != "evidence"@,
        "description"@ != "tags"@,
        "description"@ != "relates_to"@,
        "description"@ != "supersedes"@,
        "description"@ != "outcomes"@,
        "resolution"@ != "title"@,
        "resolution"@ != "rationale"@,
        "resolution"@ != "files"@,
        "resolution"@ != "date"@,
        "resolution"@ != "classification"@,
        "resolution"@ != "recorded_at"@,
        "resolution"@ != "evidence"@,
        "resolution"@ != "tags"@,
        "resolution"@ != "relates_to"@,
        "resolution"@ != "supersedes"@,
        "resolution"@ != "outcomes"@,
        "title"@ != "rationale"@,
        "title"@ != "files"@,
        "title"@ != "date"@,
        "title"@ != "classification"@,
        "title"@ != "recorded_at"@,
        "title"@ != "evidence"@,
        "title"@ != "tags"@,
        "title"@ != "relates_to"@,
        "title"@ != "supersedes"@,
        "title"@ != "outcomes"@,
        "rationale"@ != "files"@,
        "rationale"@ != "date"@,
        "rationale"@ != "classification"@,
        "rationale"@ != "recorded_at"@,
        "rationale"@ != "evidence"@,
        "rationale"@ != "tags"@,
        "rationale"@ != "relates_to"@,
        "rationale"@ != "supersedes"@,
        "rationale"@ != "outcomes"@,
        "files"@ != "date"@,
        "files"@ != "classification"@,
        "files"@ != "recorded_at"@,
        "files"@ != "evidence"@,
        "files"@ != "tags"@,
        "files"@ != "relates_to"@,
        "files"@ != "supersedes"@,
        "files"@ != "outcomes"@,
        "date"@ != "classification"@,
        "date"@ != "recorded_at"@,
        "date"@ != "evidence"@,
        "date"@ != "tags"@,
        "date"@ != "relates_to"@,
        "date"@ != "supersedes"@,
        "date"@ != "outcomes"@,
        "classification"@ != "recorded_at"@,
        "classification"@ != "evidence"@,
        "classification"@ != "tags"@,
        "classification"@ != "relates_to"@,
        "classification"@ != "supersedes"@,
        "classification"@ != "outcomes"@,
        "recorded_at"@ != "evidence"@,
        "recorded_at"@ != "tags"@,
        "recorded_at"@ != "relates_to"@,
        "recorded_at"@ != "supersedes"@,
        "recorded_at"@ != "outcomes"@,
        "evidence"@ != "tags"@,
        "evidence"@ != "relates_to"@,
        "evidence"@ != "supersedes"@,
        "evidence"@ != "outcomes"@,
        "tags"@ != "relates_to"@,
        "tags"@ != "supersedes"@,
        "tags"@ != "outcomes"@,
        "relates_to"@ != "supersedes"@,
        "relates_to"@ != "outcomes"@,
        "supersedes"@ != "outcomes"@,
{
    reveal_strlit("type");
    reveal_strlit("id");
    reveal_strlit("content");
    reveal_strlit("name");
    reveal_strlit("description");
    reveal_strlit("resolution");
    reveal_strlit("title");
    reveal_strlit("rationale");
    reveal_strlit("files");
    reveal_strlit("date");
    reveal_strlit("classification");
    reveal_strlit("recorded_at");
    reveal_strlit("evidence");
    reveal_strlit("tags");
    reveal_strlit("relates_to");
    reveal_strlit("supersedes");
    reveal_strlit("outcomes");
    assert("type"@.len() != "id"@.len());
    assert("type"@.len() != "content"@.len());
    assert("type"@[0] != "name"@[0]);
    assert("type"@.len() != "description"@.len());
    assert("type"@.len() != "resolution"@.len());
    assert("type"@.len() != "title"@.len());
    assert("type"@.len() != "rationale"@.len());
    assert("type"@.len() != "files"@.len());
    assert("type"@[0] != "date"@[0]);
    assert("type"@.len() != "classification"@.len());
    assert("type"@.len() != "recorded_at"@.len());
    assert("type"@.len() != "evidence"@.len());
    assert("type"@[1] != "tags"@[1]);
    assert("type"@.len() != "relates_to"@.len());
    assert("type"@.len() != "supersedes"@.len());
    assert("type"@.len() != "outcomes"@.len());
    assert("id"@.len() != "content"@.len());
    assert("id"@.len() != "name"@.len());
    assert("id"@.len() != "description"@.len());
    assert("id"@.len() != "resolution"@.len());
    assert("id"@.len() != "title"@.len());
    assert("id"@.len() != "rationale"@.len());
    assert("id"@.len() != "files"@.len());
    assert("id"@.len() != "date"@.len());
    assert("id"@.len() != "classification"@.len());
    assert("id"@.len() != "recorded_at"@.len());
    assert("id"@.len() != "evidence"@.len());
    assert("id"@.len() != "tags"@.len());
    assert("id"@.len() != "relates_to"@.len());
    assert("id"@.len() != "supersedes"@.len());
    assert("id"@.len() != "outcomes"@.len());
    assert("content"@.len() != "name"@.len());
    assert("content"@.len() != "description"@.len());
    assert("content"@.len() != "resolution"@.len());
    assert("content"@.len() != "title"@.len());
    assert("content"@.len() != "rationale"@.len());
    assert("content"@.len() != "files"@.len());
    assert("content"@.len() != "date"@.len());
    assert("content"@.len() != "classification"@.len());
    assert("content"@.len() != "recorded_at"@.len());
    assert("content"@.len() != "evidence"@.len());
    assert("content"@.len() != "tags"@.len());
    assert("content"@.len() != "relates_to"@.len());
    assert("content"@.len() != "supersedes"@.len());
    assert("content"@.len() != "outcomes"@.len());
    assert("name"@.len() != "description"@.len());
    assert("name"@.len() != "resolution"@.len());
    assert("name"@.len() != "title"@.len());
    assert("name"@.len() != "rationale"@.len());
    assert("name"@.len() != "files"@.len());
    assert("name"@[0] != "date"@[0]);
    assert("name"@.len() != "classification"@.len());
    assert("name"@.len() != "recorded_at"@.len());
    assert("name"@.len() != "evidence"@.len());
    assert("name"@[0] != "tags"@[0]);
    assert("name"@.len() != "relates_to"@.len());
    assert("name"@.len() != "supersedes"@.len());
    assert("name"@.len() != "outcomes"@.len());
    assert("description"@.len() != "resolution"@.len());
    assert("description"@.len() != "title"@.len());
    assert("description"@.len() != "rationale"@.len());
    assert("description"@.len() != "files"@.len());
    assert("description"@.len() != "date"@.len());
    assert("description"@.len() != "classification"@.len());
    assert("description"@[0] != "recorded_at"@[0]);
    assert("description"@.len() != "evidence"@.len());
    assert("description"@.len() != "tags"@.len());
    assert("description"@.len() != "relates_to"@.len());
    assert("description"@.len() != "supersedes"@.len());
    assert("description"@.len() != "outcomes"@.len());
    assert("resolution"@.len() != "title"@.len());
    assert("resolution"@.len() != "rationale"@.len());
    assert("resolution"@.len() != "files"@.len());
    assert("resolution"@.len() != "date"@.len());
    assert("resolution"@.len() != "classification"@.len());
    assert("resolution"@.len() != "recorded_at"@.len());
    assert("resolution"@.len() != "evidence"@.len());
    assert("resolution"@.len() != "tags"@.len());
    assert("resolution"@[2] != "relates_to"@[2]);
    assert("resolution"@[0] != "supersedes"@[0]);
    assert("resolution"@.len() != "outcomes"@.len());
    assert("title"@.len() != "rationale"@.len());
    assert("title"@[0] != "files"@[0]);
    assert("title"@.len() != "date"@.len());
    assert("title"@.len() != "classification"@.len());
    assert("title"@.len() != "recorded_at"@.len());
    assert("title"@.len() != "evidence"@.len());
    assert("title"@.len() != "tags"@.len());
    assert("title"@.len() != "relates_to"@.len());
    assert("title"@.len() != "supersedes"@.len());
    assert("title"@.len() != "outcomes"@.len());
    assert("rationale"@.len() != "files"@.len());
    assert("rationale"@.len() != "date"@.len());
    assert("rationale"@.len() != "classification"@.len());
    assert("rationale"@.len() != "recorded_at"@.len());
    assert("rationale"@.len() != "evidence"@.len());
    assert("rationale"@.len() != "tags"@.len());
    assert("rationale"@.len() != "relates_to"@.len());
    assert("rationale"@.len() != "supersedes"@.len());
    assert("rationale"@.len() != "outcomes"@.len());
    assert("files"@.len() != "date"@.len());
    assert("files"@.len() != "classification"@.len());
    assert("files"@.len() != "recorded_at"@.len());
    assert("files"@.len() != "evidence"@.len());
    assert("files"@.len() != "tags"@.len());
    assert("files"@.len() != "relates_to"@.len());
    assert("files"@.len() != "supersedes"@.len());
    assert("files"@.len() != "outcomes"@.len());
    assert("date"@.len() != "classification"@.len());
    assert("date"@.len() != "recorded_at"@.len());
    assert("date"@.len() != "evidence"@.len());
    assert("date"@[0] != "tags"@[0]);
    assert("date"@.len() != "relates_to"@.len());
    assert("date"@.len() != "supersedes"@.len());
    assert("date"@.len() != "outcomes"@.len());
    assert("classification"@.len() != "recorded_at"@.len());
    assert("classification"@.len() != "evidence"@.len());
    assert("classification"@.len() != "tags"@.len());
    assert("classification"@.len() != "relates_to"@.len());
    assert("classification"@.len() != "supersedes"@.len());
    assert("classification"@.len() != "outcomes"@.len());
    assert("recorded_at"@.len() != "evidence"@.len());
    assert("recorded_at"@.len() != "tags"@.len());
    assert("recorded_at"@.len() != "relates_to"@.len());
    assert("recorded_at"@.len() != "supersedes"@.len());
    assert("recorded_at"@.len() != "outcomes"@.len());
    assert("evidence"@.len() != "tags"@.len());
    assert("evidence"@.len() != "relates_to"@.len());
    assert("evidence"@.len() != "supersedes"@.len());
    assert("evidence"@[0] != "outcomes"@[0]);
    assert("tags"@.len() != "relates_to"@.len());
    assert("tags"@.len() != "supersedes"@.len());
    assert("tags"@.len() != "outcomes"@.len());
    assert("relates_to"@[0] != "supersedes"@[0]);
    assert("relates_to"@.len() != "outcomes"@.len());
    assert("supersedes"@.len() != "outcomes"@.len());
}

/// The stored form of a provenance.
fn encode_evidence(e: &Evidence) -> (v: JsonValue)
    ensures
        decoded_evidence(Some(v)) == Some(Some(evidence_view(*e))),
        has_keys(v, evidence_keys(evidence_view(*e))),
{
    proof {
        lemma_evidence_keys();
    }
    let mut members: Vec<JsonMember> = Vec::new();
    assert(keys_of(members@) =~= Seq::empty());
    put_opt(&mut members, "commit", opt_text_value(&e.commit));
    put_opt(&mut members, "date", opt_text_value(&e.date));
    put_opt(&mut members, "issue", opt_text_value(&e.issue));
    put_opt(&mut members, "file", opt_text_value(&e.file));
    put_opt(&mut members, "bead", opt_text_value(&e.bead));
    let v = JsonValue::Object(members);
    proof {
        assert(keys_of(members@) =~= evidence_keys(evidence_view(*e)));
    }
    v
}

/// The stored form of an outcome.
fn encode_outcome(o: &Outcome) -> (v: JsonValue)
    ensures
        decoded_outcome(v) == Some(outcome_view(*o)),
        has_keys(v, outcome_keys(outcome_view(*o))),
{
    proof {
        lemma_outcome_keys();
        lemma_status_names();
    }
    let mut members: Vec<JsonMember> = Vec::new();
    assert(keys_of(members@) =~= Seq::empty());
    put_opt(&mut members, "status", Some(text_value(o.status.as_str())));
    put_opt(&mut members, "duration", opt_number_value(&o.duration));
    put_opt(&mut members, "test_results", opt_text_value(&o.test_results));
    put_opt(&mut members, "agent", opt_text_value(&o.agent));
    put_opt(&mut members, "notes", opt_text_value(&o.notes));
    put_opt(&mut members, "recorded_at", opt_text_value(&o.recorded_at));
    let v = JsonValue::Object(members);
    proof {
        assert(keys_of(members@) =~= outcome_keys(outcome_view(*o)));
        assert(status_named(o.status.name()) == Some(o.status));
    }
    v
}

fn opt_str_value(s: Option<&str>) -> (v: Option<JsonValue>)
    ensures
        v is Some == s is Some,
        opt_text(v) == Some(crate::text::opt_str_view(s)),
{
    match s {
        Some(t) => Some(text_value(t)),
        None => None,
    }
}

/// The stored form of a list of outcomes.
fn encode_outcomes(list: Option<&[Outcome]>, Ghost(field): Ghost<Option<Vec<Outcome>>>) -> (v: Option<
    JsonValue,
>)
    requires
        crate::types::opt_slice_is(list, field),
    ensures
        v is Some == field is Some,
        decoded_outcomes(v) == Some(
            match field {
                Some(outcomes) => Some(outcome_views(outcomes@)),
                None => None,
            },
        ),
        field matches Some(outcomes) ==> (v matches Some(JsonValue::Array(items)) && items@.len()
            == outcomes@.len() && forall|i: int|
            0 <= i < outcomes@.len() ==> has_keys(
                #[trigger] items@[i],
                outcome_keys(outcome_view(outcomes@[i])),
            )),
{
    match list {
        Some(outcomes) => {
            let mut items: Vec<JsonValue> = Vec::new();
            let mut i: usize = 0;
            while i < outcomes.len()
                invariant
                    i <= outcomes@.len(),
                    items@.len() == i,
                    forall|j: int|
                        0 <= j < i ==> decoded_outcome(#[trigger] items@[j]) == Some(
                            outcome_view(outcomes@[j]),
                        ) && has_keys(items@[j], outcome_keys(outcome_view(outcomes@[j]))),
                decreases outcomes.len() - i,
            {
                items.push(encode_outcome(&outcomes[i]));
                i += 1;
            }
            assert(Seq::new(items@.len(), |i: int| decoded_outcome(items@[i])->0) =~= outcome_views(
                outcomes@,
            ));
            Some(JsonValue::Array(items))
        },
        None => None,
    }
}

/// One of the keys of the fields that belong to a kind.
pub open spec fn is_own_key(q: Seq<char>) -> bool {
    q == "content"@ || q == "name"@ || q == "description"@ || q == "resolution"@ || q == "title"@
        || q == "rationale"@ || q == "files"@ || q == "date"@
}

/// One of the keys of the lists.
pub open spec fn is_links_key(q: Seq<char>) -> bool {
    q == "tags"@ || q == "relates_to"@ || q == "supersedes"@
}

/// One of the keys of the shared fields.
pub open spec fn is_shared_key(q: Seq<char>) -> bool {
    q == "id"@ || q == "classification"@ || q == "recorded_at"@ || q == "evidence"@
}

/// The members agree on every key that `is_key` holds of.
pub open spec fn same_on(a: Seq<JsonMember>, b: Seq<JsonMember>, is_key: spec_fn(Seq<char>) -> bool) -> bool {
    forall|q: Seq<char>| is_key(q) ==> #[trigger] lookup(b, q) == lookup(a, q)
}

/// What is read of the fields of a kind depends on their members alone.
proof fn lemma_own_frame(a: Seq<JsonMember>, b: Seq<JsonMember>, kind: RecordType)
    requires
        same_on(a, b, |q: Seq<char>| is_own_key(q)),
    ensures
        decoded_own(b, kind) == decoded_own(a, kind),
{
    assert(is_own_key(first_key(kind)));
    assert(lookup(b, first_key(kind)) == lookup(a, first_key(kind)));
    if second_key(kind) is Some {
        assert(is_own_key(second_key(kind)->0));
        assert(lookup(b, second_key(kind)->0) == lookup(a, second_key(kind)->0));
    }
    assert(is_own_key("files"@));
    assert(lookup(b, "files"@) == lookup(a, "files"@));
    assert(is_own_key("date"@));
    assert(lookup(b, "date"@) == lookup(a, "date"@));
}

/// What is read of the lists depends on their members alone.
proof fn lemma_links_frame(a: Seq<JsonMember>, b: Seq<JsonMember>)
    requires
        same_on(a, b, |q: Seq<char>| is_links_key(q)),
    ensures
        decoded_links(b) == decoded_links(a),
{
    assert(is_links_key("tags"@));
    assert(lookup(b, "tags"@) == lookup(a, "tags"@));
    assert(is_links_key("relates_to"@));
    assert(lookup(b, "relates_to"@) == lookup(a, "relates_to"@));
    assert(is_links_key("supersedes"@));
    assert(lookup(b, "supersedes"@) == lookup(a, "supersedes"@));
}

/// What is read of the shared fields depends on their members alone.
proof fn lemma_shared_frame(a: Seq<JsonMember>, b: Seq<JsonMember>)
    requires
        same_on(a, b, |q: Seq<char>| is_shared_key(q)),
    ensures
        decoded_shared(b) == decoded_shared(a),
{
    assert(is_shared_key("id"@));
    assert(lookup(b, "id"@) == lookup(a, "id"@));
    assert(is_shared_key("classification"@));
    assert(lookup(b, "classification"@) == lookup(a, "classification"@));
    assert(is_shared_key("recorded_at"@));
    assert(lookup(b, "recorded_at"@) == lookup(a, "recorded_at"@));
    assert(is_shared_key("evidence"@));
    assert(lookup(b, "evidence"@) == lookup(a, "evidence"@));
}

/// Adding a member leaves every other key as it was.
proof fn lemma_put_frame(
    a: Seq<JsonMember>,
    b: Seq<JsonMember>,
    key: Seq<char>,
    value: Option<JsonValue>,
    is_key: spec_fn(Seq<char>) -> bool,
)
    requires
        forall|q: Seq<char>| #[trigger]
            lookup(b, q) == (match lookup(a, q) {
                Some(held) => Some(held),
                None => if key == q {
                    value
                } else {
                    None
                },
            }),
        !is_key(key),
    ensures
        same_on(a, b, is_key),
{
}

/// Adds the members of the fields that belong to the kind of the record.
fn put_own(members: &mut Vec<JsonMember>, record: &ExpertiseRecord)
    requires
        forall|q: Seq<char>| is_own_key(q) ==> lookup(old(members)@, q) is None,
    ensures
        keys_of(final(members)@) == keys_of(old(members)@) + own_keys(
            record.kind(),
            own_view(*record),
        ),
        decoded_own(final(members)@, record.kind()) == Some(own_view(*record)),
        forall|q: Seq<char>| !is_own_key(q) ==> #[trigger] lookup(final(members)@, q) == lookup(
            old(members)@,
            q,
        ),
{
    proof {
        lemma_record_keys();
    }
    let ghost start = members@;
    match record {
        ExpertiseRecord::Convention { content, .. } => {
            put_opt(members, "content", Some(text_value(content.as_str())));
        },
        ExpertiseRecord::Pattern { name, description, .. }
        | ExpertiseRecord::Reference { name, description, .. }
        | ExpertiseRecord::Guide { name, description, .. } => {
            put_opt(members, "name", Some(text_value(name.as_str())));
            put_opt(members, "description", Some(text_value(description.as_str())));
        },
        ExpertiseRecord::Failure { description, resolution, .. } => {
            put_opt(members, "description", Some(text_value(description.as_str())));
            put_opt(members, "resolution", Some(text_value(resolution.as_str())));
        },
        ExpertiseRecord::Decision { title, rationale, .. } => {
            put_opt(members, "title", Some(text_value(title.as_str())));
            put_opt(members, "rationale", Some(text_value(rationale.as_str())));
        },
    }
    let ghost named = members@;
    proof {
        assert(is_own_key(first_key(record.kind())));
        assert(req_text(lookup(named, first_key(record.kind()))) == Some(record.unique_key()));
        if second_key(record.kind()) is Some {
            assert(is_own_key(second_key(record.kind())->0));
            assert(req_text(lookup(named, second_key(record.kind())->0)) == second_text(*record));
        }
        assert(is_own_key("files"@) && is_own_key("date"@));
        assert(lookup(named, "files"@) is None);
        assert(lookup(named, "date"@) is None);
    }
    put_opt(members, "files", opt_texts_value(record.files(), Ghost(record.spec_files())));
    let ghost filed = members@;
    proof {
        assert(lookup(filed, first_key(record.kind())) == lookup(named, first_key(record.kind())));
        if second_key(record.kind()) is Some {
            assert(lookup(filed, second_key(record.kind())->0) == lookup(
                named,
                second_key(record.kind())->0,
            ));
        }
        assert(lookup(filed, "date"@) is None);
    }
    match record {
        ExpertiseRecord::Decision { date, .. } => {
            put_opt(members, "date", opt_text_value(date));
        },
        _ => {
            put_opt(members, "date", None);
        },
    }
    proof {
        let done = members@;
        assert(lookup(done, first_key(record.kind())) == lookup(filed, first_key(record.kind())));
        if second_key(record.kind()) is Some {
            assert(lookup(done, second_key(record.kind())->0) == lookup(
                filed,
                second_key(record.kind())->0,
            ));
        }
        assert(lookup(done, "files"@) == lookup(filed, "files"@));
        assert(keys_of(done) =~= keys_of(start) + own_keys(record.kind(), own_view(*record)));
        assert(decoded_own(done, record.kind()) =~= Some(own_view(*record)));
    }
}

/// Adds the members of the lists of the record.
fn put_links(members: &mut Vec<JsonMember>, record: &ExpertiseRecord)
    requires
        forall|q: Seq<char>| is_links_key(q) ==> lookup(old(members)@, q) is None,
    ensures
        keys_of(final(members)@) == keys_of(old(members)@) + links_keys(links_view(*record)),
        decoded_links(final(members)@) == Some(links_view(*record)),
        forall|q: Seq<char>| !is_links_key(q) ==> #[trigger] lookup(final(members)@, q) == lookup(
            old(members)@,
            q,
        ),
{
    proof {
        lemma_record_keys();
        assert(is_links_key("tags"@) && is_links_key("relates_to"@) && is_links_key("supersedes"@));
    }
    let ghost start = members@;
    put_opt(members, "tags", opt_texts_value(record.tags(), Ghost(record.spec_tags())));
    let ghost tagged = members@;
    put_opt(
        members,
        "relates_to",
        opt_texts_value(record.relates_to(), Ghost(record.spec_relates_to())),
    );
    let ghost related = members@;
    proof {
        assert(lookup(related, "tags"@) == lookup(tagged, "tags"@));
    }
    put_opt(
        members,
        "supersedes",
        opt_texts_value(record.supersedes(), Ghost(record.spec_supersedes())),
    );
    proof {
        let done = members@;
        assert(lookup(done, "tags"@) == lookup(related, "tags"@));
        assert(lookup(done, "relates_to"@) == lookup(related, "relates_to"@));
        assert(keys_of(done) =~= keys_of(start) + links_keys(links_view(*record)));
        assert(decoded_links(done) =~= Some(links_view(*record)));
    }
}

/// Adds the members of the tier, the time of recording and the
/// provenance of the record.
fn put_shared(members: &mut Vec<JsonMember>, record: &ExpertiseRecord)
    requires
        opt_text(lookup(old(members)@, "id"@)) == Some(record.id_view()),
        lookup(old(members)@, "classification"@) is None,
        lookup(old(members)@, "recorded_at"@) is None,
        lookup(old(members)@, "evidence"@) is None,
    ensures
        keys_of(final(members)@) == keys_of(old(members)@) + seq![
            "classification"@,
            "recorded_at"@,
        ] + key_if(record.spec_evidence() is Some, "evidence"@),
        decoded_shared(final(members)@) == Some(shared_view(*record)),
        record.spec_evidence() matches Some(e) ==> (lookup(final(members)@, "evidence"@) matches Some(
            held,
        ) && has_keys(held, evidence_keys(evidence_view(e)))),
        forall|q: Seq<char>|
            q != "classification"@ && q != "recorded_at"@ && q != "evidence"@ ==> #[trigger] lookup(
                final(members)@,
                q,
            ) == lookup(old(members)@, q),
{
    proof {
        lemma_record_keys();
        lemma_tier_names();
    }
    let ghost start = members@;
    put_opt(members, "classification", Some(text_value(record.classification().as_str())));
    let ghost classed = members@;
    put_opt(members, "recorded_at", Some(text_value(record.recorded_at())));
    let ghost timed = members@;
    proof {
        assert(lookup(timed, "classification"@) == lookup(classed, "classification"@));
        assert(lookup(timed, "id"@) == lookup(start, "id"@));
    }
    let evidence = match record.evidence() {
        Some(e) => Some(encode_evidence(e)),
        None => None,
    };
    put_opt(members, "evidence", evidence);
    proof {
        let done = members@;
        assert(lookup(done, "classification"@) == lookup(timed, "classification"@));
        assert(lookup(done, "recorded_at"@) == lookup(timed, "recorded_at"@));
        assert(lookup(done, "id"@) == lookup(start, "id"@));
        assert(lookup(done, "evidence"@) == evidence);
        assert(classification_named(record.spec_classification().name()) == Some(
            record.spec_classification(),
        ));
        assert(keys_of(done) =~= keys_of(start) + seq!["classification"@, "recorded_at"@] + key_if(
            record.spec_evidence() is Some,
            "evidence"@,
        ));
        assert(decoded_shared(done) =~= Some(shared_view(*record)));
    }
}

/// The stored form of a record: an object with the kind of the record as
/// its first member and one member for each field that the record has.
pub fn encode_record(record: &ExpertiseRecord) -> (v: JsonValue)
    ensures
        is_stored_record(v, record_view(*record)),
{
    proof {
        lemma_record_keys();
        lemma_kind_names();
    }
    let ghost view = record_view(*record);
    let mut members: Vec<JsonMember> = Vec::new();
    assert(keys_of(members@) =~= Seq::empty());
    put_opt(&mut members, "type", Some(text_value(record.record_type().as_str())));
    put_opt(&mut members, "id", opt_str_value(record.id()));
    let ghost headed = members@;
    proof {
        assert(kind_named(record.kind().name()) == Some(record.kind()));
        assert(decoded_kind(headed) == Some(record.kind()));
        assert(opt_text(lookup(headed, "id"@)) == Some(record.id_view()));
        assert forall|q: Seq<char>| is_own_key(q) implies lookup(headed, q) is None by {}
    }
    put_own(&mut members, record);
    let ghost owned = members@;
    proof {
        assert(!is_own_key("type"@) && !is_own_key("id"@) && !is_own_key("classification"@)
            && !is_own_key("recorded_at"@) && !is_own_key("evidence"@));
        assert(lookup(owned, "type"@) == lookup(headed, "type"@));
        assert(lookup(owned, "id"@) == lookup(headed, "id"@));
        assert(lookup(owned, "classification"@) == lookup(headed, "classification"@));
        assert(lookup(owned, "recorded_at"@) == lookup(headed, "recorded_at"@));
        assert(lookup(owned, "evidence"@) == lookup(headed, "evidence"@));
    }
    put_shared(&mut members, record);
    let ghost shared = members@;
    proof {
        assert(lookup(shared, "type"@) == lookup(owned, "type"@));
        assert forall|q: Seq<char>| is_own_key(q) implies #[trigger] lookup(shared, q) == lookup(
            owned,
            q,
        ) by {}
        assert(same_on(owned, shared, |q: Seq<char>| is_own_key(q)));
        lemma_own_frame(owned, shared, record.kind());
        assert forall|q: Seq<char>| is_links_key(q) implies lookup(shared, q) is None by {
            assert(!is_own_key(q));
            assert(lookup(shared, q) == lookup(owned, q));
            assert(lookup(owned, q) == lookup(headed, q));
        }
    }
    put_links(&mut members, record);
    let ghost linked = members@;
    proof {
        assert(!is_links_key("type"@) && !is_links_key("outcomes"@) && !is_links_key("evidence"@));
        assert(lookup(linked, "type"@) == lookup(shared, "type"@));
        assert(lookup(linked, "evidence"@) == lookup(shared, "evidence"@));
        assert forall|q: Seq<char>| is_own_key(q) implies #[trigger] lookup(linked, q) == lookup(
            shared,
            q,
        ) by {
            assert(!is_links_key(q));
        }
        assert(same_on(shared, linked, |q: Seq<char>| is_own_key(q)));
        lemma_own_frame(shared, linked, record.kind());
        assert forall|q: Seq<char>| is_shared_key(q) implies #[trigger] lookup(linked, q) == lookup(
            shared,
            q,
        ) by {
            assert(!is_links_key(q));
        }
        assert(same_on(shared, linked, |q: Seq<char>| is_shared_key(q)));
        lemma_shared_frame(shared, linked);
        assert(lookup(linked, "outcomes"@) is None) by {
            assert(!is_own_key("outcomes"@));
            assert(lookup(linked, "outcomes"@) == lookup(shared, "outcomes"@));
            assert(lookup(shared, "outcomes"@) == lookup(owned, "outcomes"@));
            assert(lookup(owned, "outcomes"@) == lookup(headed, "outcomes"@));
        }
    }
    let outcomes = encode_outcomes(record.outcomes(), Ghost(record.spec_outcomes()));
    put_opt(&mut members, "outcomes", outcomes);
    let ghost done = members@;
    let v = JsonValue::Object(members);
    proof {
        assert(!is_own_key("outcomes"@) && !is_shared_key("outcomes"@) && !is_links_key(
            "outcomes"@,
        ));
        lemma_put_frame(linked, done, "outcomes"@, outcomes, |q: Seq<char>| is_own_key(q));
        lemma_put_frame(linked, done, "outcomes"@, outcomes, |q: Seq<char>| is_shared_key(q));
        lemma_put_frame(linked, done, "outcomes"@, outcomes, |q: Seq<char>| is_links_key(q));
        lemma_own_frame(linked, done, record.kind());
        lemma_shared_frame(linked, done);
        lemma_links_frame(linked, done);
        assert(lookup(done, "type"@) == lookup(linked, "type"@));
        assert(lookup(done, "evidence"@) == lookup(linked, "evidence"@));
        assert(lookup(done, "outcomes"@) == outcomes);
        assert(decoded_kind(done) == Some(record.kind()));
        assert(keys_of(done) =~= record_keys(view));
        assert(decoded(v) =~= Some(view));
        assert(parts_in_order(done, view));
    }
    v
}

// ── Laws ───────────────────────────────────────────────────────────────────

/// What is written is what is read: a record read from the stored form of
/// a record says what that record says, field for field.
pub proof fn lemma_record_round_trip(record: ExpertiseRecord, stored: JsonValue, read: ExpertiseRecord)
    requires
        is_stored_record(stored, record_view(record)),
        decoded(stored) == Some(record_view(read)),
    ensures
        record_view(read) == record_view(record),
{
}

/// `migrated` is `value` as it is read: brought into the new form where it
/// is in the old one, else as it is.
pub open spec fn is_migrated(migrated: JsonValue, value: JsonValue) -> bool {
    if is_legacy(value) {
        exists|at: int| #[trigger] is_migration_of(migrated, value, at)
    } else {
        migrated == value
    }
}

/// Reads the record that the value of a stored line holds. A value in the
/// old form, with a single `outcome`, is read as if it had that outcome as
/// its list of outcomes.
pub fn read_record(value: JsonValue) -> (r: Result<ExpertiseRecord, MulchError>)
    ensures
        exists|migrated: JsonValue| #[trigger]
            is_migrated(migrated, value) && (match r {
                Ok(record) => decoded(migrated) == Some(record_view(record)),
                Err(e) => decoded(migrated) is None && (e matches MulchError::ValidationError(
                    detail,
                ) && detail@ == not_a_record_text()),
            }),
{
    let migrated = migrate_legacy_outcome(value);
    let r = decode_record(&migrated);
    assert(is_migrated(migrated, value));
    r
}

/// A member that is found among the first members is found among all.
proof fn lemma_lookup_in_direct_form(members: Seq<JsonMember>, base: Seq<JsonMember>, q: Seq<char>)
    requires
        members.len() == base.len() + 1,
        members.take(base.len() as int) == base,
    ensures
        lookup(members, q) == (match lookup(base, q) {
            Some(held) => Some(held),
            None => if members.last().key@ == q {
                Some(members.last().value)
            } else {
                None
            },
        }),
{
    assert(members =~= base.push(members.last()));
    lemma_lookup_push(base, members.last(), q);
}

/// A key that no member has is not found.
proof fn lemma_lookup_absent(members: Seq<JsonMember>, q: Seq<char>)
    requires
        !has_key(members, q),
    ensures
        lookup(members, q) is None,
    decreases members.len(),
{
    if members.len() > 0 {
        let init = members.drop_last();
        assert(members[members.len() - 1].key@ != q);
        assert forall|i: int| 0 <= i < init.len() implies (#[trigger] init[i]).key@ != q by {
            assert(init[i] == members[i]);
        }
        lemma_lookup_absent(init, q);
    }
}

/// Two values that write the same members and the same single outcome in
/// the new form hold the same record.
pub proof fn lemma_direct_forms_agree(base: Seq<JsonMember>, x: JsonValue, one: JsonValue, other: JsonValue)
    requires
        !has_key(base, "outcomes"@),
        is_direct_form(one, base, x),
        is_direct_form(other, base, x),
    ensures
        decoded(one) == decoded(other),
{
    lemma_record_keys();
    let m1 = one->Object_0@;
    let m2 = other->Object_0@;
    lemma_lookup_absent(base, "outcomes"@);
    assert forall|q: Seq<char>| q != "outcomes"@ implies #[trigger] lookup(m1, q) == lookup(
        m2,
        q,
    ) by {
        lemma_lookup_in_direct_form(m1, base, q);
        lemma_lookup_in_direct_form(m2, base, q);
    }
    lemma_lookup_in_direct_form(m1, base, "outcomes"@);
    lemma_lookup_in_direct_form(m2, base, "outcomes"@);
    assert(decoded_outcomes(lookup(m1, "outcomes"@)) == decoded_outcomes(lookup(m2, "outcomes"@)));
    assert(lookup(m1, "type"@) == lookup(m2, "type"@));
    assert(decoded_kind(m1) == decoded_kind(m2));
    if decoded_kind(m1) is Some {
        let kind = decoded_kind(m1)->0;
        assert(same_on(m1, m2, |q: Seq<char>| is_own_key(q)));
        lemma_own_frame(m1, m2, kind);
        assert(same_on(m1, m2, |q: Seq<char>| is_shared_key(q)));
        lemma_shared_frame(m1, m2);
        assert(same_on(m1, m2, |q: Seq<char>| is_links_key(q)));
        lemma_links_frame(m1, m2);
    }
}

/// A line with a single `outcome` is read as the same line written with
/// that outcome as its list of `outcomes`: where `base` has neither member,
/// what is read of `base` with a member `outcome` of value `x` is what is
/// read of `base` followed by a member `outcomes` with the list of `x`.
pub proof fn lemma_legacy_reads_as_direct(
    base: Seq<JsonMember>,
    x: JsonValue,
    legacy: JsonValue,
    at: int,
    migrated: JsonValue,
    direct: JsonValue,
)
    requires
        !has_key(base, "outcome"@),
        !has_key(base, "outcomes"@),
        is_legacy_form(legacy, base, x, at),
        is_migrated(migrated, legacy),
        is_direct_form(direct, base, x),
    ensures
        decoded(migrated) == decoded(direct),
{
    crate::storage::lemma_legacy_form_is_legacy(base, x, legacy, at);
    crate::storage::lemma_migration_matches_direct(base, x, legacy, at, migrated);
    lemma_direct_forms_agree(base, x, migrated, direct);
}

} // verus!
