//! The record model: the six kinds of expertise record, what they share, and
//! the configuration snapshot that operations receive.

use vstd::prelude::*;

verus! {

// ── Enums ──────────────────────────────────────────────────────────────────

/// The kind of a record.
#[derive(Debug, Clone, Copy, PartialEq, Eq, Hash, Structural)]
pub enum RecordType {
    Convention,
    Pattern,
    Failure,
    Decision,
    Reference,
    Guide,
}

impl RecordType {
    /// The lower-case name of the kind, as it is stored.
    pub open spec fn name(self) -> Seq<char> {
        match self {
            RecordType::Convention => "convention"@,
            RecordType::Pattern => "pattern"@,
            RecordType::Failure => "failure"@,
            RecordType::Decision => "decision"@,
            RecordType::Reference => "reference"@,
            RecordType::Guide => "guide"@,
        }
    }

    pub fn as_str(&self) -> (s: &'static str)
        ensures
            s@ == self.name(),
    {
        match self {
            RecordType::Convention => "convention",
            RecordType::Pattern => "pattern",
            RecordType::Failure => "failure",
            RecordType::Decision => "decision",
            RecordType::Reference => "reference",
            RecordType::Guide => "guide",
        }
    }
}

/// How durable a record is.
#[derive(Debug, Clone, Copy, PartialEq, Eq, Hash, Structural)]
pub enum Classification {
    Foundational,
    Tactical,
    Observational,
}

impl Classification {
    /// The lower-case name of the tier, as it is stored.
    pub open spec fn name(self) -> Seq<char> {
        match self {
            Classification::Foundational => "foundational"@,
            Classification::Tactical => "tactical"@,
            Classification::Observational => "observational"@,
        }
    }

    pub fn as_str(&self) -> (s: &'static str)
        ensures
            s@ == self.name(),
    {
        match self {
            Classification::Foundational => "foundational",
            Classification::Tactical => "tactical",
            Classification::Observational => "observational",
        }
    }
}

/// How one application of a record went.
#[derive(Debug, Clone, Copy, PartialEq, Eq, Hash, Structural)]
pub enum OutcomeStatus {
    Success,
    Failure,
    Partial,
}

impl OutcomeStatus {
    /// The lower-case name of the status, as it is stored.
    pub open spec fn name(self) -> Seq<char> {
        match self {
            OutcomeStatus::Success => "success"@,
            OutcomeStatus::Failure => "failure"@,
            OutcomeStatus::Partial => "partial"@,
        }
    }

    pub fn as_str(&self) -> (s: &'static str)
        ensures
            s@ == self.name(),
    {
        match self {
            OutcomeStatus::Success => "success",
            OutcomeStatus::Failure => "failure",
            OutcomeStatus::Partial => "partial",
        }
    }
}

// ── Supporting types ───────────────────────────────────────────────────────

/// Where a record comes from.
#[derive(Debug, Clone, Default)]
pub struct Evidence {
    pub commit: Option<String>,
    pub date: Option<String>,
    pub issue: Option<String>,
    pub file: Option<String>,
    pub bead: Option<String>,
}

/// One historical application of a record.
#[derive(Debug, Clone)]
pub struct Outcome {
    pub status: OutcomeStatus,
    /// Duration in milliseconds, as a decimal numeral.
    pub duration: Option<String>,
    pub test_results: Option<String>,
    pub agent: Option<String>,
    pub notes: Option<String>,
    pub recorded_at: Option<String>,
}

// ── Expertise record ───────────────────────────────────────────────────────

/// One unit of recorded knowledge.
#[derive(Debug, Clone)]
pub enum ExpertiseRecord {
    Convention {
        id: Option<String>,
        content: String,
        classification: Classification,
        recorded_at: String,
        evidence: Option<Evidence>,
        tags: Option<Vec<String>>,
        relates_to: Option<Vec<String>>,
        supersedes: Option<Vec<String>>,
        outcomes: Option<Vec<Outcome>>,
    },
    Pattern {
        id: Option<String>,
        name: String,
        description: String,
        files: Option<Vec<String>>,
        classification: Classification,
        recorded_at: String,
        evidence: Option<Evidence>,
        tags: Option<Vec<String>>,
        relates_to: Option<Vec<String>>,
        supersedes: Option<Vec<String>>,
        outcomes: Option<Vec<Outcome>>,
    },
    Failure {
        id: Option<String>,
        description: String,
        resolution: String,
        classification: Classification,
        recorded_at: String,
        evidence: Option<Evidence>,
        tags: Option<Vec<String>>,
        relates_to: Option<Vec<String>>,
        supersedes: Option<Vec<String>>,
        outcomes: Option<Vec<Outcome>>,
    },
    Decision {
        id: Option<String>,
        title: String,
        rationale: String,
        date: Option<String>,
        classification: Classification,
        recorded_at: String,
        evidence: Option<Evidence>,
        tags: Option<Vec<String>>,
        relates_to: Option<Vec<String>>,
        supersedes: Option<Vec<String>>,
        outcomes: Option<Vec<Outcome>>,
    },
    Reference {
        id: Option<String>,
        name: String,
        description: String,
        files: Option<Vec<String>>,
        classification: Classification,
        recorded_at: String,
        evidence: Option<Evidence>,
        tags: Option<Vec<String>>,
        relates_to: Option<Vec<String>>,
        supersedes: Option<Vec<String>>,
        outcomes: Option<Vec<Outcome>>,
    },
    Guide {
        id: Option<String>,
        name: String,
        description: String,
        classification: Classification,
        recorded_at: String,
        evidence: Option<Evidence>,
        tags: Option<Vec<String>>,
        relates_to: Option<Vec<String>>,
        supersedes: Option<Vec<String>>,
        outcomes: Option<Vec<Outcome>>,
    },
}

/// The view of an optional list against an optional slice.
pub open spec fn opt_slice_is<T>(r: Option<&[T]>, field: Option<Vec<T>>) -> bool {
    match (r, field) {
        (Some(a), Some(b)) => a@ == b@,
        (None, None) => true,
        _ => false,
    }
}

impl ExpertiseRecord {
    // ── Model ──────────────────────────────────────────────────────────────

    pub open spec fn spec_id(self) -> Option<String> {
        match self {
            ExpertiseRecord::Convention { id, .. } => id,
            ExpertiseRecord::Pattern { id, .. } => id,
            ExpertiseRecord::Failure { id, .. } => id,
            ExpertiseRecord::Decision { id, .. } => id,
            ExpertiseRecord::Reference { id, .. } => id,
            ExpertiseRecord::Guide { id, .. } => id,
        }
    }

    /// The identifier's text, where the record has one.
    pub open spec fn id_view(self) -> Option<Seq<char>> {
        match self.spec_id() {
            Some(s) => Some(s@),
            None => None,
        }
    }

    pub open spec fn kind(self) -> RecordType {
        match self {
            ExpertiseRecord::Convention { .. } => RecordType::Convention,
            ExpertiseRecord::Pattern { .. } => RecordType::Pattern,
            ExpertiseRecord::Failure { .. } => RecordType::Failure,
            ExpertiseRecord::Decision { .. } => RecordType::Decision,
            ExpertiseRecord::Reference { .. } => RecordType::Reference,
            ExpertiseRecord::Guide { .. } => RecordType::Guide,
        }
    }

    pub open spec fn spec_classification(self) -> Classification {
        match self {
            ExpertiseRecord::Convention { classification, .. } => classification,
            ExpertiseRecord::Pattern { classification, .. } => classification,
            ExpertiseRecord::Failure { classification, .. } => classification,
            ExpertiseRecord::Decision { classification, .. } => classification,
            ExpertiseRecord::Reference { classification, .. } => classification,
            ExpertiseRecord::Guide { classification, .. } => classification,
        }
    }

    pub open spec fn spec_recorded_at(self) -> String {
        match self {
            ExpertiseRecord::Convention { recorded_at, .. } => recorded_at,
            ExpertiseRecord::Pattern { recorded_at, .. } => recorded_at,
            ExpertiseRecord::Failure { recorded_at, .. } => recorded_at,
            ExpertiseRecord::Decision { recorded_at, .. } => recorded_at,
            ExpertiseRecord::Reference { recorded_at, .. } => recorded_at,
            ExpertiseRecord::Guide { recorded_at, .. } => recorded_at,
        }
    }

    pub open spec fn spec_evidence(self) -> Option<Evidence> {
        match self {
            ExpertiseRecord::Convention { evidence, .. } => evidence,
            ExpertiseRecord::Pattern { evidence, .. } => evidence,
            ExpertiseRecord::Failure { evidence, .. } => evidence,
            ExpertiseRecord::Decision { evidence, .. } => evidence,
            ExpertiseRecord::Reference { evidence, .. } => evidence,
            ExpertiseRecord::Guide { evidence, .. } => evidence,
        }
    }

    pub open spec fn spec_tags(self) -> Option<Vec<String>> {
        match self {
            ExpertiseRecord::Convention { tags, .. } => tags,
            ExpertiseRecord::Pattern { tags, .. } => tags,
            ExpertiseRecord::Failure { tags, .. } => tags,
            ExpertiseRecord::Decision { tags, .. } => tags,
            ExpertiseRecord::Reference { tags, .. } => tags,
            ExpertiseRecord::Guide { tags, .. } => tags,
        }
    }

    pub open spec fn spec_relates_to(self) -> Option<Vec<String>> {
        match self {
            ExpertiseRecord::Convention { relates_to, .. } => relates_to,
            ExpertiseRecord::Pattern { relates_to, .. } => relates_to,
            ExpertiseRecord::Failure { relates_to, .. } => relates_to,
            ExpertiseRecord::Decision { relates_to, .. } => relates_to,
            ExpertiseRecord::Reference { relates_to, .. } => relates_to,
            ExpertiseRecord::Guide { relates_to, .. } => relates_to,
        }
    }

    pub open spec fn spec_supersedes(self) -> Option<Vec<String>> {
        match self {
            ExpertiseRecord::Convention { supersedes, .. } => supersedes,
            ExpertiseRecord::Pattern { supersedes, .. } => supersedes,
            ExpertiseRecord::Failure { supersedes, .. } => supersedes,
            ExpertiseRecord::Decision { supersedes, .. } => supersedes,
            ExpertiseRecord::Reference { supersedes, .. } => supersedes,
            ExpertiseRecord::Guide { supersedes, .. } => supersedes,
        }
    }

    pub open spec fn spec_outcomes(self) -> Option<Vec<Outcome>> {
        match self {
            ExpertiseRecord::Convention { outcomes, .. } => outcomes,
            ExpertiseRecord::Pattern { outcomes, .. } => outcomes,
            ExpertiseRecord::Failure { outcomes, .. } => outcomes,
            ExpertiseRecord::Decision { outcomes, .. } => outcomes,
            ExpertiseRecord::Reference { outcomes, .. } => outcomes,
            ExpertiseRecord::Guide { outcomes, .. } => outcomes,
        }
    }

    /// The outcome history, empty where the record has none.
    pub open spec fn outcome_seq(self) -> Seq<Outcome> {
        match self.spec_outcomes() {
            Some(v) => v@,
            None => Seq::empty(),
        }
    }

    pub open spec fn spec_files(self) -> Option<Vec<String>> {
        match self {
            ExpertiseRecord::Pattern { files, .. } => files,
            ExpertiseRecord::Reference { files, .. } => files,
            _ => None,
        }
    }

    /// The field that identifies the record among those of its kind: the
    /// content of a convention, the description of a failure, the title of a
    /// decision, the name of the others.
    pub open spec fn unique_key(self) -> Seq<char> {
        match self {
            ExpertiseRecord::Convention { content, .. } => content@,
            ExpertiseRecord::Pattern { name, .. } => name@,
            ExpertiseRecord::Failure { description, .. } => description@,
            ExpertiseRecord::Decision { title, .. } => title@,
            ExpertiseRecord::Reference { name, .. } => name@,
            ExpertiseRecord::Guide { name, .. } => name@,
        }
    }

    /// Whether the record's kind carries a name or title and is replaced on
    /// a duplicate.
    pub open spec fn spec_is_named_type(self) -> bool {
        self.kind() != RecordType::Convention && self.kind() != RecordType::Failure
    }

    /// The record with the fields replaced that all kinds share, but for
    /// the time of recording and the evidence; the fields of its own kind
    /// stay.
    pub open spec fn with_shared(
        self,
        new_id: Option<String>,
        new_classification: Classification,
        new_tags: Option<Vec<String>>,
        new_relates_to: Option<Vec<String>>,
        new_supersedes: Option<Vec<String>>,
        new_outcomes: Option<Vec<Outcome>>,
    ) -> ExpertiseRecord {
        match self {
            ExpertiseRecord::Convention { content, recorded_at, evidence, .. } => ExpertiseRecord::Convention {
                id: new_id,
                content,
                classification: new_classification,
                recorded_at,
                evidence,
                tags: new_tags,
                relates_to: new_relates_to,
                supersedes: new_supersedes,
                outcomes: new_outcomes,
            },
            ExpertiseRecord::Pattern { name, description, files, recorded_at, evidence, .. } => ExpertiseRecord::Pattern {
                id: new_id,
                name,
                description,
                files,
                classification: new_classification,
                recorded_at,
                evidence,
                tags: new_tags,
                relates_to: new_relates_to,
                supersedes: new_supersedes,
                outcomes: new_outcomes,
            },
            ExpertiseRecord::Failure { description, resolution, recorded_at, evidence, .. } => ExpertiseRecord::Failure {
                id: new_id,
                description,
                resolution,
                classification: new_classification,
                recorded_at,
                evidence,
                tags: new_tags,
                relates_to: new_relates_to,
                supersedes: new_supersedes,
                outcomes: new_outcomes,
            },
            ExpertiseRecord::Decision { title, rationale, date, recorded_at, evidence, .. } => ExpertiseRecord::Decision {
                id: new_id,
                title,
                rationale,
                date,
                classification: new_classification,
                recorded_at,
                evidence,
                tags: new_tags,
                relates_to: new_relates_to,
                supersedes: new_supersedes,
                outcomes: new_outcomes,
            },
            ExpertiseRecord::Reference { name, description, files, recorded_at, evidence, .. } => ExpertiseRecord::Reference {
                id: new_id,
                name,
                description,
                files,
                classification: new_classification,
                recorded_at,
                evidence,
                tags: new_tags,
                relates_to: new_relates_to,
                supersedes: new_supersedes,
                outcomes: new_outcomes,
            },
            ExpertiseRecord::Guide { name, description, recorded_at, evidence, .. } => ExpertiseRecord::Guide {
                id: new_id,
                name,
                description,
                classification: new_classification,
                recorded_at,
                evidence,
                tags: new_tags,
                relates_to: new_relates_to,
                supersedes: new_supersedes,
                outcomes: new_outcomes,
            },
        }
    }

    /// The record with its identifier replaced.
    pub open spec fn with_id(self, new_id: Option<String>) -> ExpertiseRecord {
        self.with_shared(
            new_id,
            self.spec_classification(),
            self.spec_tags(),
            self.spec_relates_to(),
            self.spec_supersedes(),
            self.spec_outcomes(),
        )
    }

    // ── Accessors ──────────────────────────────────────────────────────────

    pub fn id(&self) -> (r: Option<&str>)
        ensures
            crate::text::opt_str_view(r) == self.id_view(),
    {
        match self {
            ExpertiseRecord::Convention { id, .. }
            | ExpertiseRecord::Pattern { id, .. }
            | ExpertiseRecord::Failure { id, .. }
            | ExpertiseRecord::Decision { id, .. }
            | ExpertiseRecord::Reference { id, .. }
            | ExpertiseRecord::Guide { id, .. } => match id {
                Some(s) => Some(s.as_str()),
                None => None,
            },
        }
    }

    pub fn set_id(&mut self, new_id: String)
        ensures
            *final(self) == old(self).with_id(Some(new_id)),
    {
        match self {
            ExpertiseRecord::Convention { id, .. } => {
                *id = Some(new_id);
            },
            ExpertiseRecord::Pattern { id, .. } => {
                *id = Some(new_id);
            },
            ExpertiseRecord::Failure { id, .. } => {
                *id = Some(new_id);
            },
            ExpertiseRecord::Decision { id, .. } => {
                *id = Some(new_id);
            },
            ExpertiseRecord::Reference { id, .. } => {
                *id = Some(new_id);
            },
            ExpertiseRecord::Guide { id, .. } => {
                *id = Some(new_id);
            },
        }
    }

    pub fn set_classification(&mut self, new_cls: Classification)
        ensures
            *final(self) == old(self).with_shared(
                old(self).spec_id(),
                new_cls,
                old(self).spec_tags(),
                old(self).spec_relates_to(),
                old(self).spec_supersedes(),
                old(self).spec_outcomes(),
            ),
    {
        match self {
            ExpertiseRecord::Convention { classification, .. } => {
                *classification = new_cls;
            },
            ExpertiseRecord::Pattern { classification, .. } => {
                *classification = new_cls;
            },
            ExpertiseRecord::Failure { classification, .. } => {
                *classification = new_cls;
            },
            ExpertiseRecord::Decision { classification, .. } => {
                *classification = new_cls;
            },
            ExpertiseRecord::Reference { classification, .. } => {
                *classification = new_cls;
            },
            ExpertiseRecord::Guide { classification, .. } => {
                *classification = new_cls;
            },
        }
    }

    pub fn set_tags(&mut self, new_tags: Option<Vec<String>>)
        ensures
            *final(self) == old(self).with_shared(
                old(self).spec_id(),
                old(self).spec_classification(),
                new_tags,
                old(self).spec_relates_to(),
                old(self).spec_supersedes(),
                old(self).spec_outcomes(),
            ),
    {
        match self {
            ExpertiseRecord::Convention { tags, .. } => {
                *tags = new_tags;
            },
            ExpertiseRecord::Pattern { tags, .. } => {
                *tags = new_tags;
            },
            ExpertiseRecord::Failure { tags, .. } => {
                *tags = new_tags;
            },
            ExpertiseRecord::Decision { tags, .. } => {
                *tags = new_tags;
            },
            ExpertiseRecord::Reference { tags, .. } => {
                *tags = new_tags;
            },
            ExpertiseRecord::Guide { tags, .. } => {
                *tags = new_tags;
            },
        }
    }

    pub fn set_relates_to(&mut self, new_val: Option<Vec<String>>)
        ensures
            *final(self) == old(self).with_shared(
                old(self).spec_id(),
                old(self).spec_classification(),
                old(self).spec_tags(),
                new_val,
                old(self).spec_supersedes(),
                old(self).spec_outcomes(),
            ),
    {
        match self {
            ExpertiseRecord::Convention { relates_to, .. } => {
                *relates_to = new_val;
            },
            ExpertiseRecord::Pattern { relates_to, .. } => {
                *relates_to = new_val;
            },
            ExpertiseRecord::Failure { relates_to, .. } => {
                *relates_to = new_val;
            },
            ExpertiseRecord::Decision { relates_to, .. } => {
                *relates_to = new_val;
            },
            ExpertiseRecord::Reference { relates_to, .. } => {
                *relates_to = new_val;
            },
            ExpertiseRecord::Guide { relates_to, .. } => {
                *relates_to = new_val;
            },
        }
    }

    pub fn set_supersedes(&mut self, new_val: Option<Vec<String>>)
        ensures
            *final(self) == old(self).with_shared(
                old(self).spec_id(),
                old(self).spec_classification(),
                old(self).spec_tags(),
                old(self).spec_relates_to(),
                new_val,
                old(self).spec_outcomes(),
            ),
    {
        match self {
            ExpertiseRecord::Convention { supersedes, .. } => {
                *supersedes = new_val;
            },
            ExpertiseRecord::Pattern { supersedes, .. } => {
                *supersedes = new_val;
            },
            ExpertiseRecord::Failure { supersedes, .. } => {
                *supersedes = new_val;
            },
            ExpertiseRecord::Decision { supersedes, .. } => {
                *supersedes = new_val;
            },
            ExpertiseRecord::Reference { supersedes, .. } => {
                *supersedes = new_val;
            },
            ExpertiseRecord::Guide { supersedes, .. } => {
                *supersedes = new_val;
            },
        }
    }

    pub fn set_outcomes(&mut self, new_val: Option<Vec<Outcome>>)
        ensures
            *final(self) == old(self).with_shared(
                old(self).spec_id(),
                old(self).spec_classification(),
                old(self).spec_tags(),
                old(self).spec_relates_to(),
                old(self).spec_supersedes(),
                new_val,
            ),
    {
        match self {
            ExpertiseRecord::Convention { outcomes, .. } => {
                *outcomes = new_val;
            },
            ExpertiseRecord::Pattern { outcomes, .. } => {
                *outcomes = new_val;
            },
            ExpertiseRecord::Failure { outcomes, .. } => {
                *outcomes = new_val;
            },
            ExpertiseRecord::Decision { outcomes, .. } => {
                *outcomes = new_val;
            },
            ExpertiseRecord::Reference { outcomes, .. } => {
                *outcomes = new_val;
            },
            ExpertiseRecord::Guide { outcomes, .. } => {
                *outcomes = new_val;
            },
        }
    }

    pub fn record_type(&self) -> (r: RecordType)
        ensures
            r == self.kind(),
    {
        match self {
            ExpertiseRecord::Convention { .. } => RecordType::Convention,
            ExpertiseRecord::Pattern { .. } => RecordType::Pattern,
            ExpertiseRecord::Failure { .. } => RecordType::Failure,
            ExpertiseRecord::Decision { .. } => RecordType::Decision,
            ExpertiseRecord::Reference { .. } => RecordType::Reference,
            ExpertiseRecord::Guide { .. } => RecordType::Guide,
        }
    }

    pub fn classification(&self) -> (r: Classification)
        ensures
            r == self.spec_classification(),
    {
        match self {
            ExpertiseRecord::Convention { classification, .. }
            | ExpertiseRecord::Pattern { classification, .. }
            | ExpertiseRecord::Failure { classification, .. }
            | ExpertiseRecord::Decision { classification, .. }
            | ExpertiseRecord::Reference { classification, .. }
            | ExpertiseRecord::Guide { classification, .. } => *classification,
        }
    }

    pub fn recorded_at(&self) -> (r: &str)
        ensures
            r@ == self.spec_recorded_at()@,
    {
        match self {
            ExpertiseRecord::Convention { recorded_at, .. }
            | ExpertiseRecord::Pattern { recorded_at, .. }
            | ExpertiseRecord::Failure { recorded_at, .. }
            | ExpertiseRecord::Decision { recorded_at, .. }
            | ExpertiseRecord::Reference { recorded_at, .. }
            | ExpertiseRecord::Guide { recorded_at, .. } => recorded_at.as_str(),
        }
    }

    pub fn evidence(&self) -> (r: Option<&Evidence>)
        ensures
            match (r, self.spec_evidence()) {
                (Some(a), Some(b)) => *a == b,
                (None, None) => true,
                _ => false,
            },
    {
        match self {
            ExpertiseRecord::Convention { evidence, .. }
            | ExpertiseRecord::Pattern { evidence, .. }
            | ExpertiseRecord::Failure { evidence, .. }
            | ExpertiseRecord::Decision { evidence, .. }
            | ExpertiseRecord::Reference { evidence, .. }
            | ExpertiseRecord::Guide { evidence, .. } => evidence.as_ref(),
        }
    }

    pub fn tags(&self) -> (r: Option<&[String]>)
        ensures
            opt_slice_is(r, self.spec_tags()),
    {
        match self {
            ExpertiseRecord::Convention { tags, .. }
            | ExpertiseRecord::Pattern { tags, .. }
            | ExpertiseRecord::Failure { tags, .. }
            | ExpertiseRecord::Decision { tags, .. }
            | ExpertiseRecord::Reference { tags, .. }
            | ExpertiseRecord::Guide { tags, .. } => match tags {
                Some(v) => Some(v.as_slice()),
                None => None,
            },
        }
    }

    pub fn relates_to(&self) -> (r: Option<&[String]>)
        ensures
            opt_slice_is(r, self.spec_relates_to()),
    {
        match self {
            ExpertiseRecord::Convention { relates_to, .. }
            | ExpertiseRecord::Pattern { relates_to, .. }
            | ExpertiseRecord::Failure { relates_to, .. }
            | ExpertiseRecord::Decision { relates_to, .. }
            | ExpertiseRecord::Reference { relates_to, .. }
            | ExpertiseRecord::Guide { relates_to, .. } => match relates_to {
                Some(v) => Some(v.as_slice()),
                None => None,
            },
        }
    }

    pub fn supersedes(&self) -> (r: Option<&[String]>)
        ensures
            opt_slice_is(r, self.spec_supersedes()),
    {
        match self {
            ExpertiseRecord::Convention { supersedes, .. }
            | ExpertiseRecord::Pattern { supersedes, .. }
            | ExpertiseRecord::Failure { supersedes, .. }
            | ExpertiseRecord::Decision { supersedes, .. }
            | ExpertiseRecord::Reference { supersedes, .. }
            | ExpertiseRecord::Guide { supersedes, .. } => match supersedes {
                Some(v) => Some(v.as_slice()),
                None => None,
            },
        }
    }

    pub fn outcomes(&self) -> (r: Option<&[Outcome]>)
        ensures
            opt_slice_is(r, self.spec_outcomes()),
    {
        match self {
            ExpertiseRecord::Convention { outcomes, .. }
            | ExpertiseRecord::Pattern { outcomes, .. }
            | ExpertiseRecord::Failure { outcomes, .. }
            | ExpertiseRecord::Decision { outcomes, .. }
            | ExpertiseRecord::Reference { outcomes, .. }
            | ExpertiseRecord::Guide { outcomes, .. } => match outcomes {
                Some(v) => Some(v.as_slice()),
                None => None,
            },
        }
    }

    pub fn files(&self) -> (r: Option<&[String]>)
        ensures
            opt_slice_is(r, self.spec_files()),
    {
        match self {
            ExpertiseRecord::Pattern { files, .. } | ExpertiseRecord::Reference { files, .. } => {
                match files {
                    Some(v) => Some(v.as_slice()),
                    None => None,
                }
            },
            _ => None,
        }
    }

    /// The text of the field that identifies the record among its kind.
    pub fn key_text(&self) -> (r: &str)
        ensures
            r@ == self.unique_key(),
    {
        match self {
            ExpertiseRecord::Convention { content, .. } => content.as_str(),
            ExpertiseRecord::Pattern { name, .. } => name.as_str(),
            ExpertiseRecord::Failure { description, .. } => description.as_str(),
            ExpertiseRecord::Decision { title, .. } => title.as_str(),
            ExpertiseRecord::Reference { name, .. } => name.as_str(),
            ExpertiseRecord::Guide { name, .. } => name.as_str(),
        }
    }

    /// Whether this kind of record is replaced, not skipped, on a duplicate.
    pub fn is_named_type(&self) -> (r: bool)
        ensures
            r == self.spec_is_named_type(),
    {
        match self {
            ExpertiseRecord::Pattern { .. }
            | ExpertiseRecord::Decision { .. }
            | ExpertiseRecord::Reference { .. }
            | ExpertiseRecord::Guide { .. } => true,
            _ => false,
        }
    }
}

// ── Config ─────────────────────────────────────────────────────────────────

/// Days after which a record of a tier counts as stale.
#[derive(Debug, Clone)]
pub struct ShelfLife {
    pub tactical: u32,
    pub observational: u32,
}

#[derive(Debug, Clone)]
pub struct ClassificationDefaults {
    pub shelf_life: ShelfLife,
}

/// Size thresholds of a domain.
#[derive(Debug, Clone)]
pub struct Governance {
    pub max_entries: u32,
    pub warn_entries: u32,
    pub hard_limit: u32,
}

/// The configuration, as one immutable snapshot.
#[derive(Debug, Clone)]
pub struct MulchConfig {
    pub version: String,
    pub domains: Vec<String>,
    pub governance: Governance,
    pub classification_defaults: ClassificationDefaults,
}

impl Default for MulchConfig {
    fn default() -> (c: Self)
        ensures
            c.version@ == "1"@,
            c.domains@.len() == 0,
            c.governance.max_entries == 100,
            c.governance.warn_entries == 150,
            c.governance.hard_limit == 200,
            c.classification_defaults.shelf_life.tactical == 14,
            c.classification_defaults.shelf_life.observational == 30,
    {
        MulchConfig {
            version: "1".to_owned(),
            domains: Vec::new(),
            governance: Governance { max_entries: 100, warn_entries: 150, hard_limit: 200 },
            classification_defaults: ClassificationDefaults {
                shelf_life: ShelfLife { tactical: 14, observational: 30 },
            },
        }
    }
}

} // verus!
