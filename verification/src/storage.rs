//! The stored form of a domain: one record to a line, identifiers for
//! records that have none, and the one change that the values of old files
//! need when they are read.
//!
//! Reading and writing the file, and turning the text of a line into a
//! value and back, is left to the caller.

use crate::id::{generate_record_id, id_text};
use crate::text::{
    is_blank, lemma_pieces_nonempty, pieces, push_char, split_trimmed, str_eq, strs, trimmed,
    trimmed_nonblank,
};
use crate::types::ExpertiseRecord;
use vstd::prelude::*;

verus! {

// ── Lines ──────────────────────────────────────────────────────────────────

/// The lines of a stored file that hold a record: every line that is not
/// blank, without the white space around it.
pub open spec fn stored_lines(content: Seq<char>) -> Seq<Seq<char>> {
    trimmed_nonblank(pieces(content, '\n'))
}

/// The lines as the content of a file: each line followed by a line feed.
pub open spec fn rendered(lines: Seq<Seq<char>>) -> Seq<char>
    decreases lines.len(),
{
    if lines.len() == 0 {
        Seq::empty()
    } else {
        rendered(lines.drop_last()) + lines.last().push('\n')
    }
}

/// The lines of a stored file that hold a record, in order.
pub fn record_lines(content: &str) -> (lines: Vec<String>)
    ensures
        strs(lines@) == stored_lines(content@),
{
    split_trimmed(content, '\n')
}

/// The content of a file that holds the given lines.
pub fn render_lines(lines: &[String]) -> (content: String)
    ensures
        content@ == rendered(strs(lines@)),
{
    let mut content = String::new();
    let mut i: usize = 0;
    assert(strs(lines@.take(0)) =~= Seq::empty());
    while i < lines.len()
        invariant
            i <= lines@.len(),
            content@ == rendered(strs(lines@.take(i as int))),
        decreases lines.len() - i,
    {
        proof {
            assert(strs(lines@.take(i + 1)).drop_last() =~= strs(lines@.take(i as int)));
            assert(strs(lines@.take(i + 1)).last() == lines@[i as int]@);
        }
        let ghost before = content@;
        content.append(lines[i].as_str());
        push_char(&mut content, '\n');
        assert(content@ =~= before + lines@[i as int]@.push('\n'));
        i += 1;
    }
    assert(lines@.take(lines@.len() as int) =~= lines@);
    content
}

// ── Identifiers ────────────────────────────────────────────────────────────

/// `stored` is the record `r` as it is stored: `r` itself where it has an
/// identifier, else `r` with the identifier that follows from its kind and
/// unique field.
pub open spec fn is_stored_form_of(stored: ExpertiseRecord, r: ExpertiseRecord) -> bool {
    if r.spec_id() is Some {
        stored == r
    } else {
        &&& stored.id_view() == Some(id_text(r.kind(), r.unique_key()))
        &&& stored == r.with_id(stored.spec_id())
    }
}

/// Gives the record its identifier if it has none.
pub fn ensure_record_id(record: &mut ExpertiseRecord)
    ensures
        is_stored_form_of(*final(record), *old(record)),
        final(record).spec_id() is Some,
{
    if record.id().is_none() {
        let id = generate_record_id(record);
        record.set_id(id);
    }
}

/// Gives every record that has none its identifier.
pub fn assign_missing_ids(records: Vec<ExpertiseRecord>) -> (out: Vec<ExpertiseRecord>)
    ensures
        out@.len() == records@.len(),
        forall|i: int| 0 <= i < out@.len() ==> is_stored_form_of(#[trigger] out@[i], records@[i]),
{
    let mut rest = records;
    let mut reversed: Vec<ExpertiseRecord> = Vec::new();
    while rest.len() > 0
        invariant
            rest@.len() + reversed@.len() == records@.len(),
            forall|i: int| 0 <= i < rest@.len() ==> #[trigger] rest@[i] == records@[i],
            forall|j: int|
                0 <= j < reversed@.len() ==> is_stored_form_of(
                    #[trigger] reversed@[j],
                    records@[records@.len() - 1 - j],
                ),
        decreases rest@.len(),
    {
        let mut record = rest.pop().unwrap();
        ensure_record_id(&mut record);
        reversed.push(record);
    }
    let mut out: Vec<ExpertiseRecord> = Vec::new();
    while reversed.len() > 0
        invariant
            out@.len() + reversed@.len() == records@.len(),
            forall|j: int|
                0 <= j < reversed@.len() ==> is_stored_form_of(
                    #[trigger] reversed@[j],
                    records@[records@.len() - 1 - j],
                ),
            forall|i: int| 0 <= i < out@.len() ==> is_stored_form_of(#[trigger] out@[i], records@[i]),
        decreases reversed@.len(),
    {
        let record = reversed.pop().unwrap();
        out.push(record);
    }
    out
}

/// A record that has its identifier is stored as it is: giving identifiers
/// a second time changes nothing.
pub proof fn lemma_stored_form_idempotent(stored: ExpertiseRecord, r: ExpertiseRecord, again: ExpertiseRecord)
    requires
        is_stored_form_of(stored, r),
        is_stored_form_of(again, stored),
    ensures
        again == stored,
{
}

// ── Writing and reading back ───────────────────────────────────────────────

/// A line as a record is written: not blank, no white space around it, no
/// line feed in it.
pub open spec fn is_record_line(line: Seq<char>) -> bool {
    &&& !is_blank(line)
    &&& trimmed(line) == line
    &&& forall|i: int| 0 <= i < line.len() ==> #[trigger] line[i] != '\n'
}

/// Appending text without line feed extends the last piece.
pub proof fn lemma_pieces_append(s: Seq<char>, tail: Seq<char>)
    requires
        forall|i: int| 0 <= i < tail.len() ==> #[trigger] tail[i] != '\n',
    ensures
        pieces(s + tail, '\n') == pieces(s, '\n').drop_last().push(pieces(s, '\n').last() + tail),
    decreases tail.len(),
{
    lemma_pieces_nonempty(s, '\n');
    if tail.len() == 0 {
        assert(s + tail =~= s);
        assert(pieces(s, '\n').last() + tail =~= pieces(s, '\n').last());
        assert(pieces(s, '\n').drop_last().push(pieces(s, '\n').last()) =~= pieces(s, '\n'));
    } else {
        let init = tail.drop_last();
        lemma_pieces_append(s, init);
        assert((s + tail).drop_last() =~= s + init);
        assert((s + tail).last() == tail.last());
        let before = pieces(s + init, '\n');
        assert(before.drop_last() =~= pieces(s, '\n').drop_last());
        assert(before.last().push(tail.last()) =~= pieces(s, '\n').last() + tail);
    }
}

/// The pieces of rendered lines are the lines and one empty piece.
pub proof fn lemma_pieces_of_rendered(lines: Seq<Seq<char>>)
    requires
        forall|k: int| 0 <= k < lines.len() ==> is_record_line(#[trigger] lines[k]),
    ensures
        pieces(rendered(lines), '\n') == lines.push(Seq::empty()),
    decreases lines.len(),
{
    if lines.len() == 0 {
        assert(pieces(rendered(lines), '\n') =~= lines.push(Seq::empty()));
    } else {
        let init = lines.drop_last();
        let last = lines.last();
        assert forall|k: int| 0 <= k < init.len() implies is_record_line(#[trigger] init[k]) by {
            assert(init[k] == lines[k]);
        }
        lemma_pieces_of_rendered(init);
        assert(is_record_line(lines[lines.len() - 1]));
        lemma_pieces_append(rendered(init), last);
        let whole = rendered(init) + last;
        assert(rendered(lines) =~= whole.push('\n'));
        assert(whole.push('\n').drop_last() =~= whole);
        assert(pieces(rendered(init), '\n').drop_last() =~= init);
        assert(Seq::<char>::empty() + last =~= last);
        assert(pieces(whole, '\n') =~= init.push(last));
        assert(init.push(last) =~= lines);
    }
}

/// Record lines are kept as they are.
pub proof fn lemma_record_lines_kept(lines: Seq<Seq<char>>)
    requires
        forall|k: int| 0 <= k < lines.len() ==> is_record_line(#[trigger] lines[k]),
    ensures
        trimmed_nonblank(lines) == lines,
    decreases lines.len(),
{
    if lines.len() > 0 {
        let init = lines.drop_last();
        assert forall|k: int| 0 <= k < init.len() implies is_record_line(#[trigger] init[k]) by {
            assert(init[k] == lines[k]);
        }
        lemma_record_lines_kept(init);
        assert(is_record_line(lines[lines.len() - 1]));
        assert(init.push(lines.last()) =~= lines);
    }
}

/// What is written is what is read back: the lines of a file that was
/// rendered from record lines are those lines, in their order.
pub proof fn lemma_lines_round_trip(lines: Seq<Seq<char>>)
    requires
        forall|k: int| 0 <= k < lines.len() ==> is_record_line(#[trigger] lines[k]),
    ensures
        stored_lines(rendered(lines)) == lines,
{
    lemma_pieces_of_rendered(lines);
    lemma_record_lines_kept(lines);
    let with_end = lines.push(Seq::empty());
    assert(with_end.drop_last() =~= lines);
    assert(is_blank(with_end.last()));
}

// ── Values ─────────────────────────────────────────────────────────────────

/// A value of a stored line, as far as its shape goes. A number is held as
/// its text.
#[derive(Debug)]
pub enum JsonValue {
    Null,
    Bool(bool),
    Number(String),
    Text(String),
    Array(Vec<JsonValue>),
    Object(Vec<JsonMember>),
}

/// One member of an object.
#[derive(Debug)]
pub struct JsonMember {
    pub key: String,
    pub value: JsonValue,
}

/// The position of the first member with the key, if there is one.
pub open spec fn key_position(members: Seq<JsonMember>, key: Seq<char>, i: int) -> bool {
    &&& 0 <= i < members.len()
    &&& members[i].key@ == key
    &&& forall|j: int| 0 <= j < i ==> (#[trigger] members[j]).key@ != key
}

/// A member has the key.
pub open spec fn has_key(members: Seq<JsonMember>, key: Seq<char>) -> bool {
    exists|i: int| 0 <= i < members.len() && (#[trigger] members[i]).key@ == key
}

/// The value is an object in the old form: it has a member `outcome` and no
/// member `outcomes`.
pub open spec fn is_legacy(value: JsonValue) -> bool {
    value matches JsonValue::Object(members) && has_key(members@, "outcome"@) && !has_key(
        members@,
        "outcomes"@,
    )
}

/// `migrated` is the object `value` in the new form: the member `outcome`
/// at position `at` is taken out, and a member `outcomes` is added at the
/// end whose value is the list of that one value.
pub open spec fn is_migration_of(migrated: JsonValue, value: JsonValue, at: int) -> bool {
    &&& value matches JsonValue::Object(members)
    &&& migrated matches JsonValue::Object(moved)
    &&& key_position(members@, "outcome"@, at)
    &&& moved@.len() == members@.len()
    &&& moved@.take(members@.len() - 1) == members@.remove(at)
    &&& moved@.last().key@ == "outcomes"@
    &&& moved@.last().value matches JsonValue::Array(items)
    &&& items@ == seq![members@[at].value]
}

fn find_key(members: &Vec<JsonMember>, key: &str) -> (r: Option<usize>)
    ensures
        match r {
            Some(i) => key_position(members@, key@, i as int),
            None => !has_key(members@, key@),
        },
{
    let mut i: usize = 0;
    while i < members.len()
        invariant
            i <= members@.len(),
            forall|j: int| 0 <= j < i ==> (#[trigger] members@[j]).key@ != key@,
        decreases members.len() - i,
    {
        if str_eq(members[i].key.as_str(), key) {
            return Some(i);
        }
        i += 1;
    }
    None
}

/// Brings a value of an old file into the new form: an object with a member
/// `outcome` and without a member `outcomes` gets, in place of the former, a
/// member `outcomes` with the list of that one value. Every other value
/// stays as it is.
pub fn migrate_legacy_outcome(value: JsonValue) -> (migrated: JsonValue)
    ensures
        !is_legacy(value) ==> migrated == value,
        is_legacy(value) ==> exists|at: int| #[trigger] is_migration_of(migrated, value, at),
{
    match value {
        JsonValue::Object(members) => {
            let at = match find_key(&members, "outcome") {
                Some(at) => at,
                None => {
                    return JsonValue::Object(members);
                },
            };
            if find_key(&members, "outcomes").is_some() {
                return JsonValue::Object(members);
            }
            let ghost before = members@;
            let mut moved = members;
            let outcome = moved.remove(at);
            let mut items: Vec<JsonValue> = Vec::new();
            items.push(outcome.value);
            moved.push(JsonMember { key: "outcomes".to_owned(), value: JsonValue::Array(items) });
            let migrated = JsonValue::Object(moved);
            proof {
                assert(moved@.take(before.len() - 1) =~= before.remove(at as int));
                assert(items@ =~= seq![before[at as int].value]);
                assert(is_migration_of(migrated, value, at as int));
            }
            migrated
        },
        other => other,
    }
}

/// `value` is an object written in the new form: the members `base`,
/// followed by a member `outcomes` whose value is the list of `x` alone.
pub open spec fn is_direct_form(value: JsonValue, base: Seq<JsonMember>, x: JsonValue) -> bool {
    &&& value matches JsonValue::Object(members)
    &&& members@.len() == base.len() + 1
    &&& members@.take(base.len() as int) == base
    &&& members@.last().key@ == "outcomes"@
    &&& members@.last().value matches JsonValue::Array(items)
    &&& items@ == seq![x]
}

/// `value` is an object written in the old form: the members `base`, with
/// a member `outcome` of value `x` put in at position `at`.
pub open spec fn is_legacy_form(value: JsonValue, base: Seq<JsonMember>, x: JsonValue, at: int) -> bool {
    &&& value matches JsonValue::Object(members)
    &&& 0 <= at < members@.len()
    &&& members@.remove(at) == base
    &&& members@[at].key@ == "outcome"@
    &&& members@[at].value == x
}

/// A value in the old form is recognised as such: where `base` has
/// neither member, `base` with a member `outcome` has a member `outcome`
/// and no member `outcomes`.
pub proof fn lemma_legacy_form_is_legacy(base: Seq<JsonMember>, x: JsonValue, legacy: JsonValue, at: int)
    requires
        !has_key(base, "outcomes"@),
        is_legacy_form(legacy, base, x, at),
    ensures
        is_legacy(legacy),
{
    let members = legacy->Object_0@;
    assert(members[at].key@ == "outcome"@);
    if has_key(members, "outcomes"@) {
        let q = choose|q: int| 0 <= q < members.len() && (#[trigger] members[q]).key@ == "outcomes"@;
        reveal_strlit("outcome");
        reveal_strlit("outcomes");
        assert("outcome"@.len() != "outcomes"@.len());
        assert(q != at);
        if q < at {
            assert(members.remove(at)[q] == members[q]);
            assert(base[q].key@ == "outcomes"@);
        } else {
            assert(members.remove(at)[q - 1] == members[q]);
            assert(base[q - 1].key@ == "outcomes"@);
        }
        assert(false);
    }
}

/// An old line and the same data written in the new form are the same
/// value after migration: where `base` has neither member, `base` with a
/// member `outcome` of value `x` migrates to `base` with a member `outcomes`
/// whose value is the list of `x`.
pub proof fn lemma_migration_matches_direct(
    base: Seq<JsonMember>,
    x: JsonValue,
    legacy: JsonValue,
    at: int,
    migrated: JsonValue,
)
    requires
        !has_key(base, "outcome"@),
        is_legacy_form(legacy, base, x, at),
        exists|p: int| #[trigger] is_migration_of(migrated, legacy, p),
    ensures
        is_direct_form(migrated, base, x),
{
    let p = choose|p: int| #[trigger] is_migration_of(migrated, legacy, p);
    let members = legacy->Object_0@;
    assert(members[p].key@ == "outcome"@);
    if p != at {
        if p < at {
            assert(members.remove(at)[p] == members[p]);
            assert(base[p].key@ == "outcome"@);
        } else {
            assert(members.remove(at)[p - 1] == members[p]);
            assert(base[p - 1].key@ == "outcome"@);
        }
        assert(false);
    }
}

} // verus!
