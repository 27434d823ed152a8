//! Everything about relevance ranking that is exact: how text is cut into
//! tokens, which text of a record is searched, how often a term occurs, and
//! in what order scored records come out.
//!
//! The relevance score itself is a real number and is computed by the caller
//! from the counts given here; the library receives it back as an ordered
//! integer, with zero for "no match".

use crate::order::{is_stable_order, ranks_before, stable_order, SortKey};
use crate::text::{
    char_is_alphanumeric, chars_of, is_alphanumeric_char, is_blank, is_space, is_whitespace, join,
    joined, lowercase_text, split_words, str_eq, str_to_lowercase, strs, trim_bounds, words,
};
use crate::types::ExpertiseRecord;
use vstd::prelude::*;

verus! {

// ── Tokens ─────────────────────────────────────────────────────────────────

/// A character as it is searched: letters, digits, hyphen, underscore and
/// white space stay; every other character counts as a space.
pub open spec fn searchable_char(c: char) -> char {
    if is_alphanumeric_char(c) || c == '-' || c == '_' || is_space(c) {
        c
    } else {
        ' '
    }
}

/// The text in lower case, with every character that is not searchable
/// replaced by a space.
pub open spec fn normalized(text: Seq<char>) -> Seq<char> {
    Seq::new(lowercase_text(text).len(), |i: int| searchable_char(lowercase_text(text)[i]))
}

/// The tokens of a text.
pub open spec fn tokens_of(text: Seq<char>) -> Seq<Seq<char>> {
    words(normalized(text))
}

/// Cuts a text into tokens: lower case, every character that is not a
/// letter, digit, hyphen, underscore or white space turned into a space,
/// split at white space.
pub fn tokenize(text: &str) -> (tokens: Vec<String>)
    ensures
        strs(tokens@) == tokens_of(text@),
{
    let lowered = str_to_lowercase(text);
    let chars = chars_of(lowered.as_str());
    let mut mapped: Vec<char> = Vec::new();
    let mut i: usize = 0;
    while i < chars.len()
        invariant
            i <= chars@.len(),
            mapped@ == Seq::new(i as nat, |j: int| searchable_char(chars@[j])),
        decreases chars.len() - i,
    {
        let c = chars[i];
        if char_is_alphanumeric(c) || c == '-' || c == '_' || is_whitespace(c) {
            mapped.push(c);
        } else {
            mapped.push(' ');
        }
        i += 1;
        assert(mapped@ =~= Seq::new(i as nat, |j: int| searchable_char(chars@[j])));
    }
    assert(mapped@ =~= normalized(text@));
    split_words(mapped.as_slice())
}

// ── Counts ─────────────────────────────────────────────────────────────────

/// How often `term` occurs among `tokens`.
pub open spec fn occurrences(tokens: Seq<Seq<char>>, term: Seq<char>) -> nat
    decreases tokens.len(),
{
    if tokens.len() == 0 {
        0
    } else {
        occurrences(tokens.drop_last(), term) + if tokens.last() == term {
            1nat
        } else {
            0nat
        }
    }
}

/// `term` occurs among `tokens`.
pub open spec fn has_token(tokens: Seq<Seq<char>>, term: Seq<char>) -> bool {
    exists|i: int| 0 <= i < tokens.len() && #[trigger] tokens[i] == term
}

/// In how many of the documents `term` occurs.
pub open spec fn docs_containing(corpus: Seq<Seq<Seq<char>>>, term: Seq<char>) -> nat
    decreases corpus.len(),
{
    if corpus.len() == 0 {
        0
    } else {
        docs_containing(corpus.drop_last(), term) + if has_token(corpus.last(), term) {
            1nat
        } else {
            0nat
        }
    }
}

/// The documents of a corpus as token sequences.
pub open spec fn corpus_view(corpus: Seq<Vec<String>>) -> Seq<Seq<Seq<char>>> {
    Seq::new(corpus.len(), |i: int| strs(corpus[i]@))
}

/// A term occurs among the tokens just when it is counted at least once.
pub proof fn lemma_occurrences_positive(tokens: Seq<Seq<char>>, term: Seq<char>)
    ensures
        occurrences(tokens, term) > 0 <==> has_token(tokens, term),
        occurrences(tokens, term) <= tokens.len(),
    decreases tokens.len(),
{
    if tokens.len() > 0 {
        let init = tokens.drop_last();
        lemma_occurrences_positive(init, term);
        if has_token(init, term) {
            let i = choose|i: int| 0 <= i < init.len() && #[trigger] init[i] == term;
            assert(tokens[i] == term);
        }
        if tokens.last() == term {
            assert(tokens[tokens.len() - 1] == term);
        }
        if has_token(tokens, term) {
            let i = choose|i: int| 0 <= i < tokens.len() && #[trigger] tokens[i] == term;
            if i < init.len() {
                assert(init[i] == term);
            }
        }
    }
}

/// How often `term` occurs among `tokens`.
pub fn term_frequency(tokens: &[String], term: &str) -> (n: usize)
    ensures
        n == occurrences(strs(tokens@), term@),
{
    let mut n: usize = 0;
    let mut i: usize = 0;
    assert(strs(tokens@.take(0)) =~= Seq::empty());
    while i < tokens.len()
        invariant
            i <= tokens@.len(),
            n == occurrences(strs(tokens@.take(i as int)), term@),
            n <= i,
        decreases tokens.len() - i,
    {
        proof {
            assert(strs(tokens@.take(i + 1)).drop_last() =~= strs(tokens@.take(i as int)));
            assert(strs(tokens@.take(i + 1)).last() == tokens@[i as int]@);
        }
        if str_eq(tokens[i].as_str(), term) {
            n += 1;
        }
        i += 1;
    }
    assert(tokens@.take(tokens@.len() as int) =~= tokens@);
    n
}

/// In how many documents of the corpus `term` occurs.
pub fn document_frequency(corpus: &[Vec<String>], term: &str) -> (n: usize)
    ensures
        n == docs_containing(corpus_view(corpus@), term@),
{
    let mut n: usize = 0;
    let mut i: usize = 0;
    assert(corpus_view(corpus@.take(0)) =~= Seq::empty());
    while i < corpus.len()
        invariant
            i <= corpus@.len(),
            n == docs_containing(corpus_view(corpus@.take(i as int)), term@),
            n <= i,
        decreases corpus.len() - i,
    {
        proof {
            assert(corpus_view(corpus@.take(i + 1)).drop_last() =~= corpus_view(
                corpus@.take(i as int),
            ));
            assert(corpus_view(corpus@.take(i + 1)).last() == strs(corpus@[i as int]@));
            lemma_occurrences_positive(strs(corpus@[i as int]@), term@);
        }
        if term_frequency(corpus[i].as_slice(), term) > 0 {
            n += 1;
        }
        i += 1;
    }
    assert(corpus@.take(corpus@.len() as int) =~= corpus@);
    n
}

// ── Searchable text of a record ────────────────────────────────────────────

/// One named piece of a record's text.
#[derive(Debug, Clone)]
pub struct FieldText {
    pub name: String,
    pub text: String,
}

/// The text of a record that is searched: each field on its own, and all of
/// them together as one document.
#[derive(Debug, Clone)]
pub struct RecordText {
    pub document: String,
    pub fields: Vec<FieldText>,
}

/// A field as name and text.
pub open spec fn field_view(f: FieldText) -> (Seq<char>, Seq<char>) {
    (f.name@, f.text@)
}

/// Fields as names and texts.
pub open spec fn fields_view(fields: Seq<FieldText>) -> Seq<(Seq<char>, Seq<char>)> {
    Seq::new(fields.len(), |i: int| field_view(fields[i]))
}

/// A list-valued field, its items joined by single spaces; nothing where
/// the record has no such list.
pub open spec fn list_field(name: Seq<char>, items: Option<Vec<String>>) -> Seq<
    (Seq<char>, Seq<char>),
> {
    match items {
        Some(v) => seq![(name, joined(strs(v@), " "@))],
        None => Seq::empty(),
    }
}

/// The text fields that a record of each kind offers for search, in order:
/// its own fields, then its tags.
pub open spec fn field_candidates(r: ExpertiseRecord) -> Seq<(Seq<char>, Seq<char>)> {
    (match r {
        ExpertiseRecord::Convention { content, .. } => seq![("content"@, content@)],
        ExpertiseRecord::Pattern { name, description, files, .. } => seq![
            ("name"@, name@),
            ("description"@, description@),
        ] + list_field("files"@, files),
        ExpertiseRecord::Failure { description, resolution, .. } => seq![
            ("description"@, description@),
            ("resolution"@, resolution@),
        ],
        ExpertiseRecord::Decision { title, rationale, .. } => seq![
            ("title"@, title@),
            ("rationale"@, rationale@),
        ],
        ExpertiseRecord::Reference { name, description, files, .. } => seq![
            ("name"@, name@),
            ("description"@, description@),
        ] + list_field("files"@, files),
        ExpertiseRecord::Guide { name, description, .. } => seq![
            ("name"@, name@),
            ("description"@, description@),
        ],
    }) + list_field("tags"@, r.spec_tags())
}

/// The fields whose text is not blank.
pub open spec fn nonblank_fields(fields: Seq<(Seq<char>, Seq<char>)>) -> Seq<
    (Seq<char>, Seq<char>),
>
    decreases fields.len(),
{
    if fields.len() == 0 {
        Seq::empty()
    } else if is_blank(fields.last().1) {
        nonblank_fields(fields.drop_last())
    } else {
        nonblank_fields(fields.drop_last()).push(fields.last())
    }
}

/// The fields of a record that are searched.
pub open spec fn searchable_fields(r: ExpertiseRecord) -> Seq<(Seq<char>, Seq<char>)> {
    nonblank_fields(field_candidates(r))
}

/// The texts of the fields.
pub open spec fn field_texts(fields: Seq<(Seq<char>, Seq<char>)>) -> Seq<Seq<char>> {
    Seq::new(fields.len(), |i: int| fields[i].1)
}

/// The document of a record: the texts of its searched fields, joined by
/// single spaces.
pub open spec fn document_text(r: ExpertiseRecord) -> Seq<char> {
    joined(field_texts(searchable_fields(r)), " "@)
}

fn named_field(name: &str, text: &str) -> (f: FieldText)
    ensures
        field_view(f) == (name@, text@),
{
    FieldText { name: name.to_owned(), text: text.to_owned() }
}

fn push_list_field(out: &mut Vec<FieldText>, name: &str, items: Option<&[String]>)
    ensures
        fields_view(final(out)@) == fields_view(old(out)@) + match items {
            Some(v) => seq![(name@, joined(strs(v@), " "@))],
            None => Seq::empty(),
        },
{
    match items {
        Some(v) => {
            let text = join(v, " ");
            out.push(named_field(name, text.as_str()));
            assert(fields_view(out@) =~= fields_view(old(out)@) + seq![
                (name@, joined(strs(v@), " "@)),
            ]);
        },
        None => {
            assert(fields_view(out@) =~= fields_view(old(out)@) + Seq::empty());
        },
    }
}

fn candidate_fields(record: &ExpertiseRecord) -> (out: Vec<FieldText>)
    ensures
        fields_view(out@) == field_candidates(*record),
{
    let mut out: Vec<FieldText> = Vec::new();
    match record {
        ExpertiseRecord::Convention { content, .. } => {
            out.push(named_field("content", content.as_str()));
            assert(fields_view(out@) =~= seq![("content"@, content@)]);
        },
        ExpertiseRecord::Pattern { name, description, .. }
        | ExpertiseRecord::Reference { name, description, .. }
        | ExpertiseRecord::Guide { name, description, .. } => {
            out.push(named_field("name", name.as_str()));
            out.push(named_field("description", description.as_str()));
            assert(fields_view(out@) =~= seq![("name"@, name@), ("description"@, description@)]);
        },
        ExpertiseRecord::Failure { description, resolution, .. } => {
            out.push(named_field("description", description.as_str()));
            out.push(named_field("resolution", resolution.as_str()));
            assert(fields_view(out@) =~= seq![
                ("description"@, description@),
                ("resolution"@, resolution@),
            ]);
        },
        ExpertiseRecord::Decision { title, rationale, .. } => {
            out.push(named_field("title", title.as_str()));
            out.push(named_field("rationale", rationale.as_str()));
            assert(fields_view(out@) =~= seq![("title"@, title@), ("rationale"@, rationale@)]);
        },
    }
    let ghost own = fields_view(out@);
    match record {
        ExpertiseRecord::Pattern { .. } | ExpertiseRecord::Reference { .. } => {
            push_list_field(&mut out, "files", record.files());
        },
        _ => {
            assert(fields_view(out@) =~= own + Seq::empty());
        },
    }
    push_list_field(&mut out, "tags", record.tags());
    out
}

/// The searched text of a record: its non-blank fields, by name, and the
/// document made of them.
pub fn extract_record_text(record: &ExpertiseRecord) -> (out: RecordText)
    ensures
        fields_view(out.fields@) == searchable_fields(*record),
        out.document@ == document_text(*record),
{
    let candidates = candidate_fields(record);
    let mut fields: Vec<FieldText> = Vec::new();
    let mut parts: Vec<String> = Vec::new();
    let mut i: usize = 0;
    assert(fields_view(candidates@.take(0)) =~= Seq::empty());
    assert(fields_view(fields@) =~= Seq::empty());
    assert(strs(parts@) =~= field_texts(fields_view(fields@)));
    while i < candidates.len()
        invariant
            i <= candidates@.len(),
            fields_view(fields@) == nonblank_fields(fields_view(candidates@.take(i as int))),
            strs(parts@) == field_texts(fields_view(fields@)),
        decreases candidates.len() - i,
    {
        proof {
            assert(fields_view(candidates@.take(i + 1)).drop_last() =~= fields_view(
                candidates@.take(i as int),
            ));
            assert(fields_view(candidates@.take(i + 1)).last() == field_view(candidates@[i as int]));
        }
        let chars = chars_of(candidates[i].text.as_str());
        let (from, to) = trim_bounds(chars.as_slice());
        if from != to {
            let ghost before = fields@;
            let ghost texts = parts@;
            fields.push(named_field(candidates[i].name.as_str(), candidates[i].text.as_str()));
            parts.push(candidates[i].text.clone());
            proof {
                assert(fields_view(fields@) =~= fields_view(before).push(
                    field_view(candidates@[i as int]),
                ));
                crate::text::lemma_strs_push(texts, parts@.last());
                assert(parts@ =~= texts.push(parts@.last()));
                assert(parts@.last()@ == candidates@[i as int].text@);
                assert(field_texts(fields_view(fields@)) =~= field_texts(fields_view(before)).push(
                    candidates@[i as int].text@,
                ));
            }
        }
        i += 1;
    }
    assert(candidates@.take(candidates@.len() as int) =~= candidates@);
    let document = join(parts.as_slice(), " ");
    RecordText { document, fields }
}

// ── Search plan ────────────────────────────────────────────────────────────

/// What is counted of one document for one query.
#[derive(Debug, Clone)]
pub struct DocumentStats {
    /// Number of tokens of the document.
    pub length: usize,
    /// For each query token, how often it occurs in the document.
    pub term_counts: Vec<usize>,
    /// The names of the fields in which a query token occurs.
    pub matched_fields: Vec<String>,
}

/// The counts from which the relevance of each record is computed.
#[derive(Debug, Clone)]
pub struct SearchPlan {
    pub query_tokens: Vec<String>,
    /// For each query token, in how many documents it occurs.
    pub document_counts: Vec<usize>,
    /// One entry for each record, in the order of the records.
    pub documents: Vec<DocumentStats>,
}

/// A token of the query occurs in the text.
pub open spec fn text_matches(text: Seq<char>, query: Seq<Seq<char>>) -> bool {
    exists|j: int| 0 <= j < query.len() && has_token(tokens_of(text), #[trigger] query[j])
}

/// The names of the fields in which a token of the query occurs.
pub open spec fn matching_names(fields: Seq<(Seq<char>, Seq<char>)>, query: Seq<Seq<char>>) -> Seq<
    Seq<char>,
>
    decreases fields.len(),
{
    if fields.len() == 0 {
        Seq::empty()
    } else if text_matches(fields.last().1, query) {
        matching_names(fields.drop_last(), query).push(fields.last().0)
    } else {
        matching_names(fields.drop_last(), query)
    }
}

/// The counts of each query token in the tokens of a document.
pub open spec fn counts_in(tokens: Seq<Seq<char>>, query: Seq<Seq<char>>) -> Seq<nat> {
    Seq::new(query.len(), |j: int| occurrences(tokens, query[j]))
}

/// The documents of the records as token sequences.
pub open spec fn corpus_of(records: Seq<ExpertiseRecord>) -> Seq<Seq<Seq<char>>> {
    Seq::new(records.len(), |i: int| tokens_of(document_text(records[i])))
}

/// The counts as natural numbers.
pub open spec fn nats(v: Seq<usize>) -> Seq<nat> {
    Seq::new(v.len(), |i: int| v[i] as nat)
}

/// `stats` holds the counts of `record` for the query tokens.
pub open spec fn stats_match(stats: DocumentStats, record: ExpertiseRecord, query: Seq<Seq<char>>) -> bool {
    &&& stats.length == tokens_of(document_text(record)).len()
    &&& nats(stats.term_counts@) == counts_in(tokens_of(document_text(record)), query)
    &&& strs(stats.matched_fields@) == matching_names(searchable_fields(record), query)
}

/// `plan` holds the counts of the records for the query.
pub open spec fn plan_matches(plan: SearchPlan, records: Seq<ExpertiseRecord>, query: Seq<char>) -> bool {
    &&& strs(plan.query_tokens@) == tokens_of(query)
    &&& nats(plan.document_counts@) == Seq::new(
        tokens_of(query).len(),
        |j: int| docs_containing(corpus_of(records), tokens_of(query)[j]),
    )
    &&& plan.documents@.len() == records.len()
    &&& forall|i: int|
        0 <= i < records.len() ==> stats_match(#[trigger] plan.documents@[i], records[i], tokens_of(query))
}

fn any_token_in(tokens: &[String], query: &[String]) -> (r: bool)
    ensures
        r == exists|j: int| 0 <= j < query@.len() && has_token(strs(tokens@), #[trigger] strs(query@)[j]),
{
    let mut j: usize = 0;
    while j < query.len()
        invariant
            j <= query@.len(),
            forall|h: int| 0 <= h < j ==> !has_token(strs(tokens@), #[trigger] strs(query@)[h]),
        decreases query.len() - j,
    {
        proof {
            lemma_occurrences_positive(strs(tokens@), query@[j as int]@);
        }
        if term_frequency(tokens, query[j].as_str()) > 0 {
            assert(has_token(strs(tokens@), strs(query@)[j as int]));
            return true;
        }
        j += 1;
    }
    false
}

fn matched_field_names(fields: &Vec<FieldText>, query: &[String]) -> (names: Vec<String>)
    ensures
        strs(names@) == matching_names(fields_view(fields@), strs(query@)),
{
    let mut names: Vec<String> = Vec::new();
    let mut i: usize = 0;
    assert(fields_view(fields@.take(0)) =~= Seq::empty());
    assert(strs(names@) =~= Seq::empty());
    while i < fields.len()
        invariant
            i <= fields@.len(),
            strs(names@) == matching_names(fields_view(fields@.take(i as int)), strs(query@)),
        decreases fields.len() - i,
    {
        proof {
            assert(fields_view(fields@.take(i + 1)).drop_last() =~= fields_view(
                fields@.take(i as int),
            ));
            assert(fields_view(fields@.take(i + 1)).last() == field_view(fields@[i as int]));
        }
        let tokens = tokenize(fields[i].text.as_str());
        if any_token_in(tokens.as_slice(), query) {
            let ghost before = names@;
            names.push(fields[i].name.clone());
            proof {
                crate::text::lemma_strs_push(before, names@.last());
            }
        }
        i += 1;
    }
    assert(fields@.take(fields@.len() as int) =~= fields@);
    names
}

fn counts_of(tokens: &[String], query: &[String]) -> (counts: Vec<usize>)
    ensures
        nats(counts@) == counts_in(strs(tokens@), strs(query@)),
{
    let mut counts: Vec<usize> = Vec::new();
    let mut j: usize = 0;
    while j < query.len()
        invariant
            j <= query@.len(),
            counts@.len() == j,
            forall|h: int|
                0 <= h < j ==> #[trigger] counts@[h] == occurrences(strs(tokens@), query@[h]@),
        decreases query.len() - j,
    {
        counts.push(term_frequency(tokens, query[j].as_str()));
        j += 1;
    }
    assert(nats(counts@) =~= counts_in(strs(tokens@), strs(query@)));
    counts
}

/// Counts, for a query over a list of records, what relevance is computed
/// from. Nothing is searched, and `None` returned, where there are no
/// records or the query has no tokens.
pub fn prepare_search(records: &[ExpertiseRecord], query: &str) -> (plan: Option<SearchPlan>)
    ensures
        plan is None <==> records@.len() == 0 || tokens_of(query@).len() == 0,
        plan matches Some(p) ==> plan_matches(p, records@, query@),
{
    let query_tokens = tokenize(query);
    if records.len() == 0 || query_tokens.len() == 0 {
        return None;
    }
    let ghost q = tokens_of(query@);
    let mut texts: Vec<RecordText> = Vec::new();
    let mut corpus: Vec<Vec<String>> = Vec::new();
    let mut i: usize = 0;
    while i < records.len()
        invariant
            i <= records@.len(),
            texts@.len() == i,
            corpus@.len() == i,
            forall|h: int|
                0 <= h < i ==> fields_view((#[trigger] texts@[h]).fields@) == searchable_fields(
                    records@[h],
                ),
            forall|h: int|
                0 <= h < i ==> strs((#[trigger] corpus@[h])@) == tokens_of(document_text(records@[h])),
        decreases records.len() - i,
    {
        let text = extract_record_text(&records[i]);
        corpus.push(tokenize(text.document.as_str()));
        texts.push(text);
        i += 1;
    }
    assert(corpus_view(corpus@) =~= corpus_of(records@));
    let mut document_counts: Vec<usize> = Vec::new();
    let mut j: usize = 0;
    while j < query_tokens.len()
        invariant
            j <= query_tokens@.len(),
            strs(query_tokens@) == q,
            corpus_view(corpus@) == corpus_of(records@),
            document_counts@.len() == j,
            forall|h: int|
                0 <= h < j ==> #[trigger] document_counts@[h] == docs_containing(
                    corpus_of(records@),
                    q[h],
                ),
        decreases query_tokens.len() - j,
    {
        assert(strs(query_tokens@)[j as int] == query_tokens@[j as int]@);
        document_counts.push(document_frequency(corpus.as_slice(), query_tokens[j].as_str()));
        j += 1;
    }
    let mut documents: Vec<DocumentStats> = Vec::new();
    let mut d: usize = 0;
    while d < records.len()
        invariant
            d <= records@.len(),
            texts@.len() == records@.len(),
            corpus@.len() == records@.len(),
            strs(query_tokens@) == q,
            forall|h: int|
                0 <= h < records@.len() ==> fields_view((#[trigger] texts@[h]).fields@)
                    == searchable_fields(records@[h]),
            forall|h: int|
                0 <= h < records@.len() ==> strs((#[trigger] corpus@[h])@) == tokens_of(
                    document_text(records@[h]),
                ),
            documents@.len() == d,
            forall|h: int| 0 <= h < d ==> stats_match(#[trigger] documents@[h], records@[h], q),
        decreases records.len() - d,
    {
        let tokens = &corpus[d];
        let stats = DocumentStats {
            length: tokens.len(),
            term_counts: counts_of(tokens.as_slice(), query_tokens.as_slice()),
            matched_fields: matched_field_names(&texts[d].fields, query_tokens.as_slice()),
        };
        assert(strs(tokens@).len() == tokens@.len());
        documents.push(stats);
        d += 1;
    }
    let plan = SearchPlan { query_tokens, document_counts, documents };
    assert(nats(plan.document_counts@) =~= Seq::new(
        q.len(),
        |j: int| docs_containing(corpus_of(records@), q[j]),
    ));
    Some(plan)
}

// ── Ranking ────────────────────────────────────────────────────────────────

/// `ranking` lists the positions with a positive score, each once: higher
/// scores first, and among equal scores the earlier position first.
pub open spec fn is_ranking(scores: Seq<u64>, ranking: Seq<usize>) -> bool {
    &&& forall|p: int| 0 <= p < ranking.len() ==> (#[trigger] ranking[p]) < scores.len() && scores[ranking[p] as int] > 0
    &&& forall|i: usize| i < scores.len() && scores[i as int] > 0 ==> #[trigger] ranking.contains(i)
    &&& forall|p: int, q: int|
        0 <= p < q < ranking.len() ==> {
            let a = #[trigger] ranking[p] as int;
            let b = #[trigger] ranking[q] as int;
            scores[a] > scores[b] || (scores[a] == scores[b] && a < b)
        }
}

/// Ranks scored items. A score is an integer that grows with relevance;
/// zero means that the item does not match and is left out.
pub fn rank_scores(scores: &[u64]) -> (ranking: Vec<usize>)
    ensures
        is_ranking(scores@, ranking@),
{
    let mut keys: Vec<SortKey> = Vec::new();
    let mut i: usize = 0;
    while i < scores.len()
        invariant
            i <= scores@.len(),
            keys@.len() == i,
            forall|h: int| 0 <= h < i ==> (#[trigger] keys@[h]) == (SortKey {
                first: -(scores@[h] as int) as i128,
                second: 0,
                third: 0,
                fourth: 0,
            }),
        decreases scores.len() - i,
    {
        keys.push(SortKey { first: -(scores[i] as i128), second: 0, third: 0, fourth: 0 });
        i += 1;
    }
    let order = stable_order(keys.as_slice());
    let mut ranking: Vec<usize> = Vec::new();
    let mut p: usize = 0;
    while p < order.len() && scores[order[p]] > 0
        invariant
            p <= order@.len(),
            order@.len() == scores@.len(),
            keys@.len() == scores@.len(),
            is_stable_order(keys@, order@),
            ranking@ == order@.take(p as int),
            forall|h: int| 0 <= h < p ==> scores@[(#[trigger] order@[h]) as int] > 0,
        decreases order.len() - p,
    {
        ranking.push(order[p]);
        assert(order@.take(p + 1) =~= order@.take(p as int).push(order@[p as int]));
        p += 1;
    }
    proof {
        assert forall|i: usize| i < scores@.len() && scores@[i as int] > 0 implies #[trigger] ranking@.contains(
            i,
        ) by {
            assert(order@.contains(i));
            let at = choose|at: int| 0 <= at < order@.len() && order@[at] == i;
            if at >= p {
                assert(p < order@.len());
                if at > p {
                    assert(ranks_before(keys@, order@[p as int] as int, order@[at] as int));
                }
                assert(false);
            }
            assert(ranking@[at] == i);
        }
        assert forall|a: int, b: int| 0 <= a < b < ranking@.len() implies ({
            let x = #[trigger] ranking@[a] as int;
            let y = #[trigger] ranking@[b] as int;
            scores@[x] > scores@[y] || (scores@[x] == scores@[y] && x < y)
        }) by {
            assert(ranks_before(keys@, order@[a] as int, order@[b] as int));
        }
    }
    ranking
}

} // verus!
