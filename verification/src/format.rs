//! Records as text: the entries of a domain as Markdown, compact lines,
//! plain text and XML, the fixed texts around them, and the status
//! overview.

use crate::text::{
    chars_of, decimal, decimal_text, join, joined, lemma_strs_push, push_char, string_of_range,
    strs,
};
use crate::timestamp::{parse_rfc3339_millis, rfc3339_millis};
use crate::types::{Evidence, ExpertiseRecord, Governance, Outcome, OutcomeStatus, RecordType};
use vstd::prelude::*;

verus! {

/// The form in which expertise is put out.
#[derive(Debug, Clone, Copy, PartialEq, Eq, Structural)]
pub enum PrimeFormat {
    Markdown,
    Xml,
    Plain,
}

/// The figures of one domain in the status overview.
#[derive(Debug, Clone)]
pub struct DomainStat {
    pub domain: String,
    pub count: usize,
    pub last_updated: Option<String>,
}

/// What the full priming text begins with.
pub const PRIME_HEADER: &'static str = "# Project Expertise (via Mulch)\n\n> **Context Recovery**: Run `mulch prime` after compaction, clear, or new session\n\n## Rules\n\n- **Record learnings**: When you discover a pattern, fix a bug, or make a design decision \u{2014} record it with `mulch record`\n- **Check expertise first**: Before implementing, check if relevant expertise exists with `mulch search` or `mulch prime --context`\n- **Targeted priming**: Use `mulch prime --files src/foo.ts` to load only records relevant to specific files\n- **Do NOT** store expertise in code comments, markdown files, or memory tools \u{2014} use `mulch record`\n- Run `mulch doctor` if you are unsure whether records are healthy\n\n";

/// What stands in place of the domains where there are none.
pub const PRIME_EMPTY: &'static str = "No expertise recorded yet. Use `mulch add <domain>` to create a domain, then `mulch record` to add records.";

/// What the full priming text ends with.
pub const PRIME_FOOTER: &'static str = "\n\n\n## Recording New Learnings\n\nWhen you discover a pattern, convention, failure, or make an architectural decision:\n\n```bash\nmulch record <domain> --type convention \"description\"\nmulch record <domain> --type failure --description \"...\" --resolution \"...\"\nmulch record <domain> --type decision --title \"...\" --rationale \"...\"\nmulch record <domain> --type pattern --name \"...\" --description \"...\" --files \"...\"\nmulch record <domain> --type reference --name \"...\" --description \"...\" --files \"...\"\nmulch record <domain> --type guide --name \"...\" --description \"...\"\n```\n\n**Link evidence** to records when available:\n\n```bash\nmulch record <domain> --type pattern --name \"...\" --description \"...\" --evidence-commit abc123\nmulch record <domain> --type decision --title \"...\" --rationale \"...\" --evidence-bead beads-xxx\n```\n\n**Batch record** multiple records at once:\n\n```bash\nmulch record <domain> --batch records.json  # from file\necho '[{\"type\":\"convention\",\"content\":\"...\"}]' | mulch record <domain> --stdin  # from stdin\n```\n\n## Searching Expertise\n\nUse `mulch search` to find relevant records across all domains. Results are ranked by relevance (BM25):\n\n```bash\nmulch search \"file locking\"              # multi-word queries ranked by relevance\nmulch search \"atomic\" --domain cli        # limit to a specific domain\nmulch search \"ESM\" --type convention      # filter by record type\nmulch search \"concurrency\" --tag safety   # filter by tag\n```\n\nSearch before implementing \u{2014} existing expertise may already cover your use case.\n\n## Domain Maintenance\n\nWhen a domain grows large, compact it to keep expertise focused:\n\n```bash\nmulch compact --auto --dry-run     # preview what would be merged\nmulch compact --auto               # merge same-type record groups\n```\n\nUse `mulch diff` to review what expertise changed:\n\n```bash\nmulch diff HEAD~3                  # see record changes over last 3 commits\n```\n\n## Session End\n\n**IMPORTANT**: Before ending your session, record what you learned and sync:\n\n```\n[ ] mulch learn          # see what files changed \u{2014} decide what to record\n[ ] mulch record ...     # record learnings (see above)\n[ ] mulch sync           # validate, stage, and commit .mulch/ changes\n```\n\nDo NOT skip this. Unrecorded learnings are lost for the next session.";

/// What the compact priming text begins with.
pub const COMPACT_HEADER: &'static str = "# Project Expertise (via Mulch)\n\n";

/// What stands in place of the domains in the compact text where there are none.
pub const COMPACT_EMPTY: &'static str = "No expertise recorded yet. Use `mulch add <domain>` to create a domain, then `mulch record` to add records.";

/// What the compact priming text ends with.
pub const COMPACT_FOOTER: &'static str = "\n\n## Quick Reference\n\n- `mulch search \"query\"` \u{2014} find relevant records before implementing\n- `mulch prime --files src/foo.ts` \u{2014} load records for specific files\n- `mulch prime --context` \u{2014} load records for git-changed files\n- `mulch record <domain> --type <type> --description \"...\"`\n  - Types: `convention`, `pattern`, `failure`, `decision`, `reference`, `guide`\n  - Evidence: `--evidence-commit <sha>`, `--evidence-bead <id>`\n- `mulch doctor` \u{2014} check record health";

/// What the XML priming text begins with.
pub const XML_HEADER: &'static str = "<expertise>\n";

/// What stands in place of the domains in the XML text where there are none.
pub const XML_EMPTY: &'static str = "  <empty>No expertise recorded yet. Use mulch add and mulch record to get started.</empty>";

/// What the XML priming text ends with.
pub const XML_FOOTER: &'static str = "\n</expertise>";

/// What the plain priming text begins with.
pub const PLAIN_HEADER: &'static str = "Project Expertise (via Mulch)\n============================\n\n";

/// What stands in place of the domains in the plain text where there are none.
pub const PLAIN_EMPTY: &'static str = "No expertise recorded yet. Use `mulch add <domain>` and `mulch record` to get started.";

/// The reminder at the end of a session, as XML.
pub const REMINDER_XML: &'static str = "<session_close_protocol priority=\"critical\">\n  <instruction>Before saying done or complete, you MUST run this checklist:</instruction>\n  <checklist>\n    <step>mulch learn \u{2014} see what files changed, decide what to record</step>\n    <step>mulch record &lt;domain&gt; --type &lt;type&gt; --description &quot;...&quot;</step>\n    <step>mulch sync \u{2014} validate, stage, and commit .mulch/ changes</step>\n  </checklist>\n  <warning>NEVER skip this. Unrecorded learnings are lost for the next session.</warning>\n</session_close_protocol>";

/// The reminder at the end of a session, as plain text.
pub const REMINDER_PLAIN: &'static str = "=== SESSION CLOSE PROTOCOL (CRITICAL) ===\n\nBefore saying \"done\" or \"complete\", you MUST run this checklist:\n\n[ ] 1. mulch learn              (see what files changed \u{2014} decide what to record)\n[ ] 2. mulch record <domain> --type <type> --description \"...\"\n[ ] 3. mulch sync               (validate, stage, and commit .mulch/ changes)\n\nNEVER skip this. Unrecorded learnings are lost for the next session.";

/// The reminder at the end of a session, as Markdown.
pub const REMINDER_MARKDOWN: &'static str = "# \u{1f6a8} SESSION CLOSE PROTOCOL \u{1f6a8}\n\n**CRITICAL**: Before saying \"done\" or \"complete\", you MUST run this checklist:\n\n```\n[ ] 1. mulch learn              # see what files changed \u{2014} decide what to record\n[ ] 2. mulch record <domain> --type <type> --description \"...\"\n[ ] 3. mulch sync               # validate, stage, and commit .mulch/ changes\n```\n\n**NEVER skip this.** Unrecorded learnings are lost for the next session.";
// ── Priming output ─────────────────────────────────────────────────────────

/// The sections between a header and a footer: joined by `separator`, or
/// the note `empty` where there are none.
pub open spec fn framed(
    header: Seq<char>,
    sections: Seq<Seq<char>>,
    separator: Seq<char>,
    empty: Seq<char>,
    footer: Seq<char>,
) -> Seq<char> {
    header + (if sections.len() == 0 {
        empty
    } else {
        joined(sections, separator)
    }) + footer
}

fn frame(header: &str, sections: &[String], separator: &str, empty: &str, footer: &str) -> (out:
    String)
    ensures
        out@ == framed(header@, strs(sections@), separator@, empty@, footer@),
{
    let mut out = String::new();
    out.append(header);
    if sections.len() == 0 {
        out.append(empty);
    } else {
        out.append(join(sections, separator).as_str());
    }
    out.append(footer);
    out
}

/// The full priming text around the sections of the domains.
pub fn format_prime_output(domain_sections: &[String]) -> (out: String)
    ensures
        out@ == framed(
            PRIME_HEADER@,
            strs(domain_sections@),
            "\n\n"@,
            PRIME_EMPTY@,
            PRIME_FOOTER@,
        ),
{
    frame(PRIME_HEADER, domain_sections, "\n\n", PRIME_EMPTY, PRIME_FOOTER)
}

/// The compact priming text around the sections of the domains.
pub fn format_prime_output_compact(domain_sections: &[String]) -> (out: String)
    ensures
        out@ == framed(
            COMPACT_HEADER@,
            strs(domain_sections@),
            "\n\n"@,
            COMPACT_EMPTY@,
            COMPACT_FOOTER@,
        ),
{
    frame(COMPACT_HEADER, domain_sections, "\n\n", COMPACT_EMPTY, COMPACT_FOOTER)
}

/// The XML priming text around the sections of the domains.
pub fn format_prime_output_xml(domain_sections: &[String]) -> (out: String)
    ensures
        out@ == framed(XML_HEADER@, strs(domain_sections@), "\n"@, XML_EMPTY@, XML_FOOTER@),
{
    frame(XML_HEADER, domain_sections, "\n", XML_EMPTY, XML_FOOTER)
}

/// The plain priming text around the sections of the domains.
pub fn format_prime_output_plain(domain_sections: &[String]) -> (out: String)
    ensures
        out@ == framed(
            PLAIN_HEADER@,
            strs(domain_sections@),
            "\n\n"@,
            PLAIN_EMPTY@,
            Seq::empty(),
        ),
{
    proof {
        reveal_strlit("");
        assert(""@ =~= Seq::<char>::empty());
    }
    frame(PLAIN_HEADER, domain_sections, "\n\n", PLAIN_EMPTY, "")
}

/// The reminder of what to do before a session ends.
pub fn get_session_end_reminder(format: PrimeFormat) -> (out: String)
    ensures
        out@ == match format {
            PrimeFormat::Xml => REMINDER_XML@,
            PrimeFormat::Plain => REMINDER_PLAIN@,
            PrimeFormat::Markdown => REMINDER_MARKDOWN@,
        },
{
    match format {
        PrimeFormat::Xml => REMINDER_XML.to_owned(),
        PrimeFormat::Plain => REMINDER_PLAIN.to_owned(),
        PrimeFormat::Markdown => REMINDER_MARKDOWN.to_owned(),
    }
}

// ── Time ago ───────────────────────────────────────────────────────────────

/// How long ago `elapsed` milliseconds is, in the largest unit that has
/// begun: whole days from a day on, whole hours from an hour on, whole
/// minutes from a minute on, and "just now" below that.
pub open spec fn ago_text(elapsed: int) -> Seq<char> {
    if elapsed < 60_000 {
        "just now"@
    } else if elapsed < 3_600_000 {
        decimal_text((elapsed / 60_000) as nat) + "m ago"@
    } else if elapsed < 86_400_000 {
        decimal_text((elapsed / 3_600_000) as nat) + "h ago"@
    } else {
        decimal_text((elapsed / 86_400_000) as nat) + "d ago"@
    }
}

/// How long before `now_millis` the time `recorded_at` lies, as text;
/// "unknown" where the time cannot be read.
pub open spec fn time_ago_text(recorded_at: Seq<char>, now_millis: i64) -> Seq<char> {
    match rfc3339_millis(recorded_at) {
        Some(t) => ago_text(now_millis - t),
        None => "unknown"@,
    }
}

/// How long ago a time of recording is at `now_millis`, an instant in
/// milliseconds since the Unix epoch.
pub fn format_time_ago(recorded_at: &str, now_millis: i64) -> (out: String)
    ensures
        out@ == time_ago_text(recorded_at@, now_millis),
{
    let t = match parse_rfc3339_millis(recorded_at) {
        Some(t) => t,
        None => {
            return "unknown".to_owned();
        },
    };
    let elapsed: i128 = now_millis as i128 - t as i128;
    if elapsed < 60_000 {
        return "just now".to_owned();
    }
    let (amount, unit): (u64, &str) = if elapsed < 3_600_000 {
        ((elapsed / 60_000) as u64, "m ago")
    } else if elapsed < 86_400_000 {
        ((elapsed / 3_600_000) as u64, "h ago")
    } else {
        ((elapsed / 86_400_000) as u64, "d ago")
    };
    let mut out = decimal(amount);
    out.append(unit);
    out
}

// ── Status ─────────────────────────────────────────────────────────────────

/// What the status overview begins with.
pub const STATUS_HEADER: &'static str = "Mulch Status\n============\n\n";

/// What the status overview says where there are no domains.
pub const STATUS_EMPTY: &'static str =
    "No domains configured. Run `mulch add <domain>` to get started.";

/// The remark on the size of a domain against the thresholds.
pub open spec fn size_remark(count: nat, governance: Governance) -> Seq<char> {
    if count >= governance.hard_limit {
        " \u{26a0} OVER HARD LIMIT \u{2014} must decompose"@
    } else if count >= governance.warn_entries {
        " \u{26a0} consider splitting domain"@
    } else if count >= governance.max_entries {
        " \u{2014} approaching limit"@
    } else {
        Seq::empty()
    }
}

/// The line of one domain in the status overview.
pub open spec fn status_line(stat: DomainStat, governance: Governance, now_millis: i64) -> Seq<char> {
    "  "@ + stat.domain@ + ": "@ + decimal_text(stat.count as nat) + " records (updated "@ + (
    match stat.last_updated {
        Some(t) => time_ago_text(t@, now_millis),
        None => "never"@,
    }) + ")"@ + size_remark(stat.count as nat, governance)
}

/// The lines of the domains in the status overview.
pub open spec fn status_lines(stats: Seq<DomainStat>, governance: Governance, now_millis: i64) -> Seq<
    Seq<char>,
> {
    Seq::new(stats.len(), |i: int| status_line(stats[i], governance, now_millis))
}

fn format_status_line(stat: &DomainStat, governance: &Governance, now_millis: i64) -> (out: String)
    ensures
        out@ == status_line(*stat, *governance, now_millis),
{
    let mut out = String::new();
    out.append("  ");
    out.append(stat.domain.as_str());
    out.append(": ");
    out.append(decimal(stat.count as u64).as_str());
    out.append(" records (updated ");
    match &stat.last_updated {
        Some(t) => {
            out.append(format_time_ago(t.as_str(), now_millis).as_str());
        },
        None => {
            out.append("never");
        },
    }
    out.append(")");
    let ghost head = out@;
    let count = stat.count as u64;
    if count >= governance.hard_limit as u64 {
        out.append(" \u{26a0} OVER HARD LIMIT \u{2014} must decompose");
    } else if count >= governance.warn_entries as u64 {
        out.append(" \u{26a0} consider splitting domain");
    } else if count >= governance.max_entries as u64 {
        out.append(" \u{2014} approaching limit");
    } else {
        assert(out@ =~= head + Seq::<char>::empty());
    }
    out
}

/// The status overview: one line for each domain with its size, the time
/// since its last change at `now_millis`, and a remark where it has grown
/// past a threshold.
pub fn format_status_output(stats: &[DomainStat], governance: &Governance, now_millis: i64) -> (out:
    String)
    ensures
        out@ == framed(
            STATUS_HEADER@,
            status_lines(stats@, *governance, now_millis),
            "\n"@,
            STATUS_EMPTY@,
            Seq::empty(),
        ),
{
    let mut lines: Vec<String> = Vec::new();
    let mut i: usize = 0;
    while i < stats.len()
        invariant
            i <= stats@.len(),
            lines@.len() == i,
            forall|j: int|
                0 <= j < i ==> (#[trigger] lines@[j])@ == status_line(
                    stats@[j],
                    *governance,
                    now_millis,
                ),
        decreases stats.len() - i,
    {
        lines.push(format_status_line(&stats[i], governance, now_millis));
        i += 1;
    }
    assert(strs(lines@) =~= status_lines(stats@, *governance, now_millis));
    proof {
        reveal_strlit("");
        assert(""@ =~= Seq::<char>::empty());
    }
    frame(STATUS_HEADER, lines.as_slice(), "\n", STATUS_EMPTY, "")
}

// ── Parts of a record line ─────────────────────────────────────────────────

/// The parts in square brackets after a space, separated by `sep`; nothing
/// where there are no parts.
pub open spec fn bracketed(parts: Seq<Seq<char>>, sep: Seq<char>) -> Seq<char> {
    if parts.len() == 0 {
        Seq::empty()
    } else {
        " ["@ + joined(parts, sep) + "]"@
    }
}

fn bracket(parts: &Vec<String>, sep: &str) -> (out: String)
    ensures
        out@ == bracketed(strs(parts@), sep@),
{
    let mut out = String::new();
    if parts.len() > 0 {
        out.append(" [");
        out.append(join(parts.as_slice(), sep).as_str());
        out.append("]");
    }
    out
}

/// A label and a value, where there is a value.
pub open spec fn labelled(label: Seq<char>, value: Option<String>) -> Seq<Seq<char>> {
    match value {
        Some(v) => seq![label + v@],
        None => Seq::empty(),
    }
}

fn push_labelled(parts: &mut Vec<String>, label: &str, value: &Option<String>)
    ensures
        strs(final(parts)@) == strs(old(parts)@) + labelled(label@, *value),
{
    match value {
        Some(v) => {
            let mut part = String::new();
            part.append(label);
            part.append(v.as_str());
            parts.push(part);
            proof {
                lemma_strs_push(old(parts)@, parts@.last());
                assert(parts@ =~= old(parts)@.push(parts@.last()));
                assert(strs(old(parts)@).push(label@ + v@) =~= strs(old(parts)@) + seq![
                    label@ + v@,
                ]);
            }
        },
        None => {
            assert(strs(parts@) =~= strs(old(parts)@) + Seq::empty());
        },
    }
}

/// The provenance of a record: commit, date, issue and file, as far as they
/// are known.
pub open spec fn evidence_text(evidence: Option<Evidence>) -> Seq<char> {
    match evidence {
        Some(e) => bracketed(
            labelled("commit: "@, e.commit) + labelled("date: "@, e.date) + labelled(
                "issue: "@,
                e.issue,
            ) + labelled("file: "@, e.file),
            ", "@,
        ),
        None => Seq::empty(),
    }
}

fn format_evidence(record: &ExpertiseRecord) -> (out: String)
    ensures
        out@ == evidence_text(record.spec_evidence()),
{
    match record.evidence() {
        Some(e) => {
            let mut parts: Vec<String> = Vec::new();
            assert(strs(parts@) =~= Seq::empty());
            push_labelled(&mut parts, "commit: ", &e.commit);
            push_labelled(&mut parts, "date: ", &e.date);
            push_labelled(&mut parts, "issue: ", &e.issue);
            push_labelled(&mut parts, "file: ", &e.file);
            assert(strs(parts@) =~= labelled("commit: "@, e.commit) + labelled("date: "@, e.date)
                + labelled("issue: "@, e.issue) + labelled("file: "@, e.file));
            bracket(&parts, ", ")
        },
        None => String::new(),
    }
}

/// The sign for a status.
pub open spec fn status_sign(status: OutcomeStatus) -> Seq<char> {
    match status {
        OutcomeStatus::Success => "\u{2713}"@,
        OutcomeStatus::Partial => "~"@,
        OutcomeStatus::Failure => "\u{2717}"@,
    }
}

/// The latest outcome of a history in short: its sign, its duration, who
/// it is from, and how many outcomes there are if more than one.
pub open spec fn outcome_text(outcomes: Seq<Outcome>) -> Seq<char> {
    if outcomes.len() == 0 {
        Seq::empty()
    } else {
        let latest = outcomes.last();
        bracketed(
            seq![status_sign(latest.status)] + (match latest.duration {
                Some(d) => seq![d@ + "ms"@],
                None => Seq::empty(),
            }) + labelled("@"@, latest.agent) + (if outcomes.len() > 1 {
                seq!["("@ + decimal_text(outcomes.len()) + "x)"@]
            } else {
                Seq::empty()
            }),
            " "@,
        )
    }
}

fn format_outcome(record: &ExpertiseRecord) -> (out: String)
    ensures
        out@ == outcome_text(record.outcome_seq()),
{
    let outcomes = match record.outcomes() {
        Some(o) => o,
        None => {
            return String::new();
        },
    };
    if outcomes.len() == 0 {
        return String::new();
    }
    let latest = &outcomes[outcomes.len() - 1];
    let mut parts: Vec<String> = Vec::new();
    let sign = match latest.status {
        OutcomeStatus::Success => "\u{2713}",
        OutcomeStatus::Partial => "~",
        OutcomeStatus::Failure => "\u{2717}",
    };
    parts.push(sign.to_owned());
    assert(strs(parts@) =~= seq![status_sign(latest.status)]);
    let ghost first = strs(parts@);
    match &latest.duration {
        Some(d) => {
            let mut part = String::new();
            part.append(d.as_str());
            part.append("ms");
            parts.push(part);
            assert(strs(parts@) =~= first + seq![d@ + "ms"@]);
        },
        None => {
            assert(strs(parts@) =~= first + Seq::empty());
        },
    }
    push_labelled(&mut parts, "@", &latest.agent);
    let ghost third = strs(parts@);
    if outcomes.len() > 1 {
        let mut part = String::new();
        part.append("(");
        part.append(decimal(outcomes.len() as u64).as_str());
        part.append("x)");
        parts.push(part);
        assert(strs(parts@) =~= third + seq!["("@ + decimal_text(outcomes@.len()) + "x)"@]);
    } else {
        assert(strs(parts@) =~= third + Seq::empty());
    }
    bracket(&parts, " ")
}

/// A label and the items of a list joined by commas, where the list has
/// items.
pub open spec fn labelled_list(label: Seq<char>, items: Option<Vec<String>>) -> Seq<Seq<char>> {
    match items {
        Some(v) => if v@.len() > 0 {
            seq![label + joined(strs(v@), ", "@)]
        } else {
            Seq::empty()
        },
        None => Seq::empty(),
    }
}

fn push_labelled_list(parts: &mut Vec<String>, label: &str, items: Option<&[String]>, Ghost(field): Ghost<Option<Vec<String>>>)
    requires
        crate::types::opt_slice_is(items, field),
    ensures
        strs(final(parts)@) == strs(old(parts)@) + labelled_list(label@, field),
{
    match items {
        Some(v) => {
            if v.len() > 0 {
                let mut part = String::new();
                part.append(label);
                part.append(join(v, ", ").as_str());
                parts.push(part);
                proof {
                    lemma_strs_push(old(parts)@, parts@.last());
                    assert(parts@ =~= old(parts)@.push(parts@.last()));
                    assert(strs(old(parts)@).push(parts@.last()@) =~= strs(old(parts)@) + seq![
                        parts@.last()@,
                    ]);
                }
            } else {
                assert(strs(parts@) =~= strs(old(parts)@) + Seq::empty());
            }
        },
        None => {
            assert(strs(parts@) =~= strs(old(parts)@) + Seq::empty());
        },
    }
}

/// The records that a record relates to and those that it supersedes.
pub open spec fn links_text(r: ExpertiseRecord) -> Seq<char> {
    bracketed(
        labelled_list("relates to: "@, r.spec_relates_to()) + labelled_list(
            "supersedes: "@,
            r.spec_supersedes(),
        ),
        "; "@,
    )
}

fn format_links(record: &ExpertiseRecord) -> (out: String)
    ensures
        out@ == links_text(*record),
{
    let mut parts: Vec<String> = Vec::new();
    assert(strs(parts@) =~= Seq::empty());
    push_labelled_list(
        &mut parts,
        "relates to: ",
        record.relates_to(),
        Ghost(record.spec_relates_to()),
    );
    push_labelled_list(
        &mut parts,
        "supersedes: ",
        record.supersedes(),
        Ghost(record.spec_supersedes()),
    );
    assert(strs(parts@) =~= labelled_list("relates to: "@, record.spec_relates_to())
        + labelled_list("supersedes: "@, record.spec_supersedes()));
    bracket(&parts, "; ")
}

/// The tags of a record in square brackets, where it has tags.
pub open spec fn tags_part(r: ExpertiseRecord) -> Seq<Seq<char>> {
    match r.spec_tags() {
        Some(v) => if v@.len() > 0 {
            seq!["[tags: "@ + joined(strs(v@), ", "@) + "]"@]
        } else {
            Seq::empty()
        },
        None => Seq::empty(),
    }
}

/// What follows the text of a record: its links; in the full form its tier
/// with its provenance and its tags before them.
pub open spec fn meta_text(r: ExpertiseRecord, full: bool) -> Seq<char> {
    if full {
        " "@ + joined(
            seq!["("@ + r.spec_classification().name() + ")"@ + evidence_text(r.spec_evidence())]
                + tags_part(r),
            " "@,
        ) + links_text(r)
    } else {
        links_text(r)
    }
}

fn format_record_meta(record: &ExpertiseRecord, full: bool) -> (out: String)
    ensures
        out@ == meta_text(*record, full),
{
    if !full {
        return format_links(record);
    }
    let mut parts: Vec<String> = Vec::new();
    let mut first = String::new();
    first.append("(");
    first.append(record.classification().as_str());
    first.append(")");
    first.append(format_evidence(record).as_str());
    parts.push(first);
    assert(strs(parts@) =~= seq![
        "("@ + record.spec_classification().name() + ")"@ + evidence_text(record.spec_evidence()),
    ]);
    let ghost head = strs(parts@);
    let has_tags = match record.tags() {
        Some(v) => v.len() > 0,
        None => false,
    };
    if has_tags {
        let mut part = String::new();
        part.append("[tags: ");
        match record.tags() {
            Some(v) => {
                part.append(join(v, ", ").as_str());
            },
            None => {},
        }
        part.append("]");
        parts.push(part);
        assert(strs(parts@) =~= head + tags_part(*record));
    } else {
        assert(strs(parts@) =~= head + tags_part(*record));
    }
    let mut out = String::new();
    out.append(" ");
    out.append(join(parts.as_slice(), " ").as_str());
    out.append(format_links(record).as_str());
    out
}

/// The identifier of a record between `before` and `after`; nothing where
/// it has none.
pub open spec fn id_between(r: ExpertiseRecord, before: Seq<char>, after: Seq<char>) -> Seq<char> {
    match r.id_view() {
        Some(id) => before + id + after,
        None => Seq::empty(),
    }
}

fn format_id(record: &ExpertiseRecord, before: &str, after: &str) -> (out: String)
    ensures
        out@ == id_between(*record, before@, after@),
{
    let mut out = String::new();
    match record.id() {
        Some(id) => {
            out.append(before);
            out.append(id);
            out.append(after);
        },
        None => {},
    }
    out
}

/// The files of a record between `before` and `after`; nothing where it
/// lists none.
pub open spec fn files_between(files: Option<Vec<String>>, before: Seq<char>, after: Seq<char>) -> Seq<
    char,
> {
    match crate::budget::listed_files(files) {
        Some(list) => before + list + after,
        None => Seq::empty(),
    }
}

fn format_files(files: &Option<Vec<String>>, before: &str, after: &str) -> (out: String)
    ensures
        out@ == files_between(*files, before@, after@),
{
    let mut out = String::new();
    match files {
        Some(v) => {
            if v.len() > 0 {
                out.append(before);
                out.append(join(v.as_slice(), ", ").as_str());
                out.append(after);
            }
        },
        None => {},
    }
    out
}

// ── Shortening ─────────────────────────────────────────────────────────────

/// White space in the ASCII range: space, tab, line feed, form feed,
/// carriage return.
pub open spec fn is_ascii_space(c: char) -> bool {
    c == ' ' || c == '\t' || c == '\n' || c == '\x0c' || c == '\r'
}

/// A sentence ends at position `i`: there is a full stop, exclamation mark
/// or question mark, and white space after it.
pub open spec fn is_sentence_end(s: Seq<char>, i: int) -> bool {
    (s[i] == '.' || s[i] == '!' || s[i] == '?') && i + 1 < s.len() && is_ascii_space(s[i + 1])
}

/// The first position below `max` at which a sentence ends.
pub open spec fn sentence_end_before(s: Seq<char>, max: int) -> Option<int>
    decreases max,
{
    if max <= 0 {
        None
    } else {
        match sentence_end_before(s, max - 1) {
            Some(i) => Some(i),
            None => if is_sentence_end(s, max - 1) {
                Some(max - 1)
            } else {
                None
            },
        }
    }
}

/// The text cut to `max` characters: the text itself where it is no
/// longer; else its first sentence where that ends within `max`
/// characters; else its first `max` characters and an ellipsis.
pub open spec fn truncated(s: Seq<char>, max: int) -> Seq<char> {
    if s.len() <= max {
        s
    } else {
        match sentence_end_before(s, max) {
            Some(i) => s.take(i + 1),
            None => s.take(max) + "..."@,
        }
    }
}

/// The text cut to at most `max_len` characters, at the end of its first
/// sentence where possible.
pub fn truncate(text: &str, max_len: usize) -> (out: String)
    ensures
        out@ == truncated(text@, max_len as int),
{
    let chars = chars_of(text);
    if chars.len() <= max_len {
        assert(chars@.subrange(0, chars@.len() as int) =~= chars@);
        return string_of_range(chars.as_slice(), 0, chars.len());
    }
    let mut i: usize = 0;
    while i < max_len
        invariant
            i <= max_len < chars@.len(),
            chars@ == text@,
            sentence_end_before(chars@, i as int) is None,
        decreases max_len - i,
    {
        let c = chars[i];
        if (c == '.' || c == '!' || c == '?') && i + 1 < chars.len() {
            let n = chars[i + 1];
            if n == ' ' || n == '\t' || n == '\n' || n == '\x0c' || n == '\r' {
                proof {
                    assert(is_sentence_end(chars@, i as int));
                    assert(sentence_end_before(chars@, i + 1) == Some(i as int));
                    lemma_sentence_end_stays(chars@, i + 1, max_len as int);
                    assert(chars@.subrange(0, i + 1) =~= chars@.take(i + 1));
                }
                return string_of_range(chars.as_slice(), 0, i + 1);
            }
        }
        i += 1;
    }
    let mut out = string_of_range(chars.as_slice(), 0, max_len);
    out.append("...");
    assert(chars@.subrange(0, max_len as int) =~= chars@.take(max_len as int));
    out
}

/// Once a sentence end is found below some bound, it is the one found below
/// every larger bound.
pub proof fn lemma_sentence_end_stays(s: Seq<char>, bound: int, max: int)
    requires
        bound <= max,
        sentence_end_before(s, bound) is Some,
    ensures
        sentence_end_before(s, max) == sentence_end_before(s, bound),
    decreases max - bound,
{
    if bound < max {
        lemma_sentence_end_stays(s, bound, max - 1);
    }
}

/// A record in a few words: the name or title of a record that has one,
/// else the beginning of what it says.
pub open spec fn summary_text(r: ExpertiseRecord) -> Seq<char> {
    match r {
        ExpertiseRecord::Convention { content, .. } => truncated(content@, 60),
        ExpertiseRecord::Failure { description, .. } => truncated(description@, 60),
        _ => r.unique_key(),
    }
}

/// A record in a few words.
pub fn get_record_summary(record: &ExpertiseRecord) -> (out: String)
    ensures
        out@ == summary_text(*record),
{
    match record {
        ExpertiseRecord::Convention { content, .. } => truncate(content.as_str(), 60),
        ExpertiseRecord::Failure { description, .. } => truncate(description.as_str(), 60),
        _ => record.key_text().to_owned(),
    }
}

// ── One record, one entry ──────────────────────────────────────────────────

/// The header line of a domain: its name, the number of its records, and
/// when it was last changed.
pub open spec fn heading(before: Seq<char>, domain: Seq<char>, middle: Seq<char>, count: nat, updated: Seq<char>, after: Seq<char>) -> Seq<char> {
    before + domain + middle + decimal_text(count) + " records"@ + updated + after
}

/// When a domain was last changed, between `before` and `after`; nothing
/// where that is not known.
pub open spec fn updated_text(last_updated: Option<&str>, now_millis: i64, before: Seq<char>, after: Seq<char>) -> Seq<char> {
    match last_updated {
        Some(t) => before + time_ago_text(t@, now_millis) + after,
        None => Seq::empty(),
    }
}

fn format_updated(last_updated: Option<&str>, now_millis: i64, before: &str, after: &str) -> (out: String)
    ensures
        out@ == updated_text(last_updated, now_millis, before@, after@),
{
    let mut out = String::new();
    match last_updated {
        Some(t) => {
            out.append(before);
            out.append(format_time_ago(t, now_millis).as_str());
            out.append(after);
        },
        None => {},
    }
    out
}

fn format_heading(before: &str, domain: &str, middle: &str, count: usize, updated: &str, after: &str) -> (out: String)
    ensures
        out@ == heading(before@, domain@, middle@, count as nat, updated@, after@),
{
    let mut out = String::new();
    out.append(before);
    out.append(domain);
    out.append(middle);
    out.append(decimal(count as u64).as_str());
    out.append(" records");
    out.append(updated);
    out.append(after);
    out
}

/// The line of a record in the compact form.
pub open spec fn compact_text(r: ExpertiseRecord) -> Seq<char> {
    (match r {
        ExpertiseRecord::Convention { content, .. } => "- [convention] "@ + truncated(content@, 100),
        ExpertiseRecord::Pattern { name, description, files, .. } => "- [pattern] "@ + name@ + ": "@
            + truncated(description@, 100) + files_between(files, " ("@, ")"@),
        ExpertiseRecord::Failure { description, resolution, .. } => "- [failure] "@ + truncated(
            description@,
            100,
        ) + " \u{2192} "@ + truncated(resolution@, 100),
        ExpertiseRecord::Decision { title, rationale, .. } => "- [decision] "@ + title@ + ": "@
            + truncated(rationale@, 100),
        ExpertiseRecord::Reference { name, description, files, .. } => "- [reference] "@ + name@
            + ": "@ + (match crate::budget::listed_files(files) {
            Some(list) => list,
            None => truncated(description@, 100),
        }),
        ExpertiseRecord::Guide { name, description, .. } => "- [guide] "@ + name@ + ": "@
            + truncated(description@, 100),
    }) + id_between(r, " ("@, ")"@) + outcome_text(r.outcome_seq()) + links_text(r)
}

fn compact_line(record: &ExpertiseRecord) -> (out: String)
    ensures
        out@ == compact_text(*record),
{
    let mut out = String::new();
    match record {
        ExpertiseRecord::Convention { content, .. } => {
            out.append("- [convention] ");
            out.append(truncate(content.as_str(), 100).as_str());
        },
        ExpertiseRecord::Pattern { name, description, files, .. } => {
            out.append("- [pattern] ");
            out.append(name.as_str());
            out.append(": ");
            out.append(truncate(description.as_str(), 100).as_str());
            out.append(format_files(files, " (", ")").as_str());
        },
        ExpertiseRecord::Failure { description, resolution, .. } => {
            out.append("- [failure] ");
            out.append(truncate(description.as_str(), 100).as_str());
            out.append(" \u{2192} ");
            out.append(truncate(resolution.as_str(), 100).as_str());
        },
        ExpertiseRecord::Decision { title, rationale, .. } => {
            out.append("- [decision] ");
            out.append(title.as_str());
            out.append(": ");
            out.append(truncate(rationale.as_str(), 100).as_str());
        },
        ExpertiseRecord::Reference { name, description, files, .. } => {
            out.append("- [reference] ");
            out.append(name.as_str());
            out.append(": ");
            let list = format_files(files, "", "");
            proof {
                reveal_strlit("");
                assert(""@ =~= Seq::<char>::empty());
                if crate::budget::listed_files(*files) is Some {
                    assert(list@ =~= crate::budget::listed_files(*files)->0);
                }
            }
            let listed = match files {
                Some(v) => v.len() > 0,
                None => false,
            };
            if listed {
                out.append(list.as_str());
            } else {
                out.append(truncate(description.as_str(), 100).as_str());
            }
        },
        ExpertiseRecord::Guide { name, description, .. } => {
            out.append("- [guide] ");
            out.append(name.as_str());
            out.append(": ");
            out.append(truncate(description.as_str(), 100).as_str());
        },
    }
    out.append(format_id(record, " (", ")").as_str());
    out.append(format_outcome(record).as_str());
    out.append(format_links(record).as_str());
    out
}

/// How the entries of a domain are laid out.
#[derive(Debug, Clone, Copy, PartialEq, Eq, Structural)]
pub enum EntryStyle {
    /// A Markdown list item; `full` adds tier, provenance and tags.
    Markdown { full: bool },
    /// An indented line of plain text.
    Plain,
}

/// The entry of a record in a list of records of its kind.
pub open spec fn entry_text(r: ExpertiseRecord, style: EntryStyle) -> Seq<char> {
    match style {
        EntryStyle::Markdown { full } => "- "@ + id_between(r, "["@, "] "@) + (match r {
            ExpertiseRecord::Convention { content, .. } => content@ + meta_text(r, full),
            ExpertiseRecord::Pattern { name, description, files, .. } => "**"@ + name@ + "**: "@
                + description@ + files_between(files, " ("@, ")"@) + meta_text(r, full),
            ExpertiseRecord::Failure { description, resolution, .. } => description@ + meta_text(
                r,
                full,
            ) + "\n  \u{2192} "@ + resolution@,
            ExpertiseRecord::Decision { title, rationale, .. } => "**"@ + title@ + "**: "@
                + rationale@ + meta_text(r, full),
            ExpertiseRecord::Reference { name, description, files, .. } => "**"@ + name@ + "**: "@
                + description@ + files_between(files, " ("@, ")"@) + meta_text(r, full),
            ExpertiseRecord::Guide { name, description, .. } => "**"@ + name@ + "**: "@
                + description@ + meta_text(r, full),
        }),
        EntryStyle::Plain => "  - "@ + id_between(r, "["@, "] "@) + (match r {
            ExpertiseRecord::Convention { content, .. } => content@ + links_text(r),
            ExpertiseRecord::Pattern { name, description, files, .. } => name@ + ": "@
                + description@ + files_between(files, " ("@, ")"@) + links_text(r),
            ExpertiseRecord::Failure { description, resolution, .. } => description@ + links_text(r)
                + "\n    Fix: "@ + resolution@,
            ExpertiseRecord::Decision { title, rationale, .. } => title@ + ": "@ + rationale@
                + links_text(r),
            ExpertiseRecord::Reference { name, description, files, .. } => name@ + ": "@
                + description@ + files_between(files, " ("@, ")"@) + links_text(r),
            ExpertiseRecord::Guide { name, description, .. } => name@ + ": "@ + description@
                + links_text(r),
        }),
    }
}

fn format_entry(record: &ExpertiseRecord, style: EntryStyle) -> (out: String)
    ensures
        out@ == entry_text(*record, style),
{
    let mut out = String::new();
    let (bullet, strong, colon) = match style {
        EntryStyle::Markdown { .. } => ("- ", "**", "**: "),
        EntryStyle::Plain => ("  - ", "", ": "),
    };
    let tail = match style {
        EntryStyle::Markdown { full } => format_record_meta(record, full),
        EntryStyle::Plain => format_links(record),
    };
    let fix = match style {
        EntryStyle::Markdown { .. } => "\n  \u{2192} ",
        EntryStyle::Plain => "\n    Fix: ",
    };
    proof {
        reveal_strlit("");
        assert(""@ =~= Seq::<char>::empty());
    }
    out.append(bullet);
    out.append(format_id(record, "[", "] ").as_str());
    let ghost head = out@;
    match record {
        ExpertiseRecord::Convention { content, .. } => {
            out.append(content.as_str());
            out.append(tail.as_str());
            assert(out@ =~= head + (content@ + tail@));
        },
        ExpertiseRecord::Pattern { name, description, files, .. }
        | ExpertiseRecord::Reference { name, description, files, .. } => {
            out.append(strong);
            out.append(name.as_str());
            out.append(colon);
            out.append(description.as_str());
            out.append(format_files(files, " (", ")").as_str());
            out.append(tail.as_str());
            assert(out@ =~= head + (strong@ + name@ + colon@ + description@ + files_between(
                *files,
                " ("@,
                ")"@,
            ) + tail@));
            assert(""@ + name@ =~= name@);
        },
        ExpertiseRecord::Failure { description, resolution, .. } => {
            out.append(description.as_str());
            out.append(tail.as_str());
            out.append(fix);
            out.append(resolution.as_str());
            assert(out@ =~= head + (description@ + tail@ + fix@ + resolution@));
        },
        ExpertiseRecord::Decision { title, rationale, .. } => {
            out.append(strong);
            out.append(title.as_str());
            out.append(colon);
            out.append(rationale.as_str());
            out.append(tail.as_str());
            assert(out@ =~= head + (strong@ + title@ + colon@ + rationale@ + tail@));
            assert(""@ + title@ =~= title@);
        },
        ExpertiseRecord::Guide { name, description, .. } => {
            out.append(strong);
            out.append(name.as_str());
            out.append(colon);
            out.append(description.as_str());
            out.append(tail.as_str());
            assert(out@ =~= head + (strong@ + name@ + colon@ + description@ + tail@));
            assert(""@ + name@ =~= name@);
        },
    }
    out
}

// ── The records of a domain ────────────────────────────────────────────────

/// The entries of the records of one kind, in the order of the records.
pub open spec fn kind_entries(records: Seq<ExpertiseRecord>, kind: RecordType, style: EntryStyle) -> Seq<
    Seq<char>,
>
    decreases records.len(),
{
    if records.len() == 0 {
        Seq::empty()
    } else if records.last().kind() == kind {
        kind_entries(records.drop_last(), kind, style).push(entry_text(records.last(), style))
    } else {
        kind_entries(records.drop_last(), kind, style)
    }
}

fn entries_of_kind(records: &[ExpertiseRecord], kind: RecordType, style: EntryStyle) -> (out: Vec<
    String,
>)
    ensures
        strs(out@) == kind_entries(records@, kind, style),
{
    let mut out: Vec<String> = Vec::new();
    let mut i: usize = 0;
    assert(records@.take(0) =~= Seq::empty());
    assert(strs(out@) =~= Seq::empty());
    while i < records.len()
        invariant
            i <= records@.len(),
            strs(out@) == kind_entries(records@.take(i as int), kind, style),
        decreases records.len() - i,
    {
        proof {
            assert(records@.take(i + 1).drop_last() =~= records@.take(i as int));
            assert(records@.take(i + 1).last() == records@[i as int]);
        }
        if records[i].record_type() == kind {
            let ghost before = out@;
            out.push(format_entry(&records[i], style));
            proof {
                lemma_strs_push(before, out@.last());
            }
        }
        i += 1;
    }
    assert(records@.take(records@.len() as int) =~= records@);
    out
}

/// The title under which the records of a kind are listed.
pub open spec fn kind_title(kind: RecordType) -> Seq<char> {
    match kind {
        RecordType::Convention => "Conventions"@,
        RecordType::Pattern => "Patterns"@,
        RecordType::Failure => "Known Failures"@,
        RecordType::Decision => "Decisions"@,
        RecordType::Reference => "References"@,
        RecordType::Guide => "Guides"@,
    }
}

fn title_of(kind: RecordType) -> (t: &'static str)
    ensures
        t@ == kind_title(kind),
{
    match kind {
        RecordType::Convention => "Conventions",
        RecordType::Pattern => "Patterns",
        RecordType::Failure => "Known Failures",
        RecordType::Decision => "Decisions",
        RecordType::Reference => "References",
        RecordType::Guide => "Guides",
    }
}

/// The kinds in the order in which their records are listed.
pub open spec fn listed_kinds() -> Seq<RecordType> {
    seq![
        RecordType::Convention,
        RecordType::Pattern,
        RecordType::Failure,
        RecordType::Decision,
        RecordType::Reference,
        RecordType::Guide,
    ]
}

fn kinds_in_order() -> (kinds: Vec<RecordType>)
    ensures
        kinds@ == listed_kinds(),
{
    let mut kinds: Vec<RecordType> = Vec::new();
    kinds.push(RecordType::Convention);
    kinds.push(RecordType::Pattern);
    kinds.push(RecordType::Failure);
    kinds.push(RecordType::Decision);
    kinds.push(RecordType::Reference);
    kinds.push(RecordType::Guide);
    assert(kinds@ =~= listed_kinds());
    kinds
}

/// The Markdown sections of the first `upto` kinds that have records: a
/// title line and the entries of the kind.
pub open spec fn markdown_sections(records: Seq<ExpertiseRecord>, full: bool, upto: int) -> Seq<
    Seq<char>,
>
    decreases upto,
{
    if upto <= 0 {
        Seq::empty()
    } else {
        let kind = listed_kinds()[upto - 1];
        let entries = kind_entries(records, kind, EntryStyle::Markdown { full });
        if entries.len() > 0 {
            markdown_sections(records, full, upto - 1).push(
                "### "@ + kind_title(kind) + "\n"@ + joined(entries, "\n"@),
            )
        } else {
            markdown_sections(records, full, upto - 1)
        }
    }
}

/// The records of a domain as Markdown.
pub open spec fn domain_markdown(
    domain: Seq<char>,
    records: Seq<ExpertiseRecord>,
    last_updated: Option<&str>,
    full: bool,
    now_millis: i64,
) -> Seq<char> {
    heading(
        "## "@,
        domain,
        " ("@,
        records.len(),
        updated_text(last_updated, now_millis, ", updated "@, Seq::empty()),
        ")"@,
    ) + "\n\n"@ + joined(markdown_sections(records, full, 6), "\n\n"@)
}

/// The records of a domain as Markdown, kind by kind. `now_millis` is the
/// present instant in milliseconds since the Unix epoch.
pub fn format_domain_expertise(
    domain: &str,
    records: &[ExpertiseRecord],
    last_updated: Option<&str>,
    full: bool,
    now_millis: i64,
) -> (out: String)
    ensures
        out@ == domain_markdown(domain@, records@, last_updated, full, now_millis),
{
    proof {
        reveal_strlit("");
        assert(""@ =~= Seq::<char>::empty());
    }
    let updated = format_updated(last_updated, now_millis, ", updated ", "");
    assert(updated@ =~= updated_text(last_updated, now_millis, ", updated "@, Seq::empty()));
    let mut out = format_heading("## ", domain, " (", records.len(), updated.as_str(), ")");
    out.append("\n\n");
    let kinds = kinds_in_order();
    let mut sections: Vec<String> = Vec::new();
    let mut k: usize = 0;
    assert(strs(sections@) =~= Seq::empty());
    while k < 6
        invariant
            k <= 6,
            kinds@ == listed_kinds(),
            strs(sections@) == markdown_sections(records@, full, k as int),
        decreases 6 - k,
    {
        let kind = kinds[k];
        let entries = entries_of_kind(records, kind, EntryStyle::Markdown { full });
        if entries.len() > 0 {
            let mut section = String::new();
            section.append("### ");
            section.append(title_of(kind));
            section.append("\n");
            section.append(join(entries.as_slice(), "\n").as_str());
            let ghost before = sections@;
            sections.push(section);
            proof {
                lemma_strs_push(before, sections@.last());
            }
        }
        k += 1;
    }
    out.append(join(sections.as_slice(), "\n\n").as_str());
    out
}

/// The compact lines of the records.
pub open spec fn compact_lines(records: Seq<ExpertiseRecord>) -> Seq<Seq<char>> {
    Seq::new(records.len(), |i: int| compact_text(records[i]))
}

/// The records of a domain in the compact form: a heading and one line for
/// each record.
pub open spec fn domain_compact(
    domain: Seq<char>,
    records: Seq<ExpertiseRecord>,
    last_updated: Option<&str>,
    now_millis: i64,
) -> Seq<char> {
    joined(
        seq![
            heading(
                "## "@,
                domain,
                " ("@,
                records.len(),
                updated_text(last_updated, now_millis, ", updated "@, Seq::empty()),
                ")"@,
            ),
        ] + compact_lines(records),
        "\n"@,
    )
}

/// The records of a domain in the compact form.
pub fn format_domain_expertise_compact(
    domain: &str,
    records: &[ExpertiseRecord],
    last_updated: Option<&str>,
    now_millis: i64,
) -> (out: String)
    ensures
        out@ == domain_compact(domain@, records@, last_updated, now_millis),
{
    proof {
        reveal_strlit("");
        assert(""@ =~= Seq::<char>::empty());
    }
    let updated = format_updated(last_updated, now_millis, ", updated ", "");
    assert(updated@ =~= updated_text(last_updated, now_millis, ", updated "@, Seq::empty()));
    let mut lines: Vec<String> = Vec::new();
    lines.push(format_heading("## ", domain, " (", records.len(), updated.as_str(), ")"));
    let ghost first = strs(lines@);
    assert(first =~= seq![lines@[0]@]);
    let mut i: usize = 0;
    while i < records.len()
        invariant
            i <= records@.len(),
            lines@.len() == i + 1,
            lines@[0]@ == first[0],
            first.len() == 1,
            forall|p: int| 1 <= p <= i ==> (#[trigger] lines@[p])@ == compact_text(records@[p - 1]),
        decreases records.len() - i,
    {
        lines.push(compact_line(&records[i]));
        i += 1;
    }
    assert(strs(lines@) =~= first + compact_lines(records@));
    join(lines.as_slice(), "\n")
}

// ── Plain text ─────────────────────────────────────────────────────────────

/// The plain-text blocks of the first `upto` kinds that have records: a
/// title line, the entries of the kind, and an empty line.
pub open spec fn plain_blocks(records: Seq<ExpertiseRecord>, upto: int) -> Seq<Seq<char>>
    decreases upto,
{
    if upto <= 0 {
        Seq::empty()
    } else {
        let kind = listed_kinds()[upto - 1];
        let entries = kind_entries(records, kind, EntryStyle::Plain);
        if entries.len() > 0 {
            plain_blocks(records, upto - 1) + seq![kind_title(kind) + ":"@] + entries + seq![
                Seq::empty(),
            ]
        } else {
            plain_blocks(records, upto - 1)
        }
    }
}

/// The text without the white space at its end.
pub open spec fn trimmed_end(s: Seq<char>) -> Seq<char> {
    s.take(s.len() - crate::text::trailing_spaces(s))
}

/// The records of a domain as plain text.
pub open spec fn domain_plain(
    domain: Seq<char>,
    records: Seq<ExpertiseRecord>,
    last_updated: Option<&str>,
    now_millis: i64,
) -> Seq<char> {
    trimmed_end(
        joined(
            seq![
                heading(
                    "["@,
                    domain,
                    "] "@,
                    records.len(),
                    updated_text(last_updated, now_millis, " (updated "@, ")"@),
                    Seq::empty(),
                ),
                Seq::empty(),
            ] + plain_blocks(records, 6),
            "\n"@,
        ),
    )
}

fn trim_end(s: &str) -> (out: String)
    ensures
        out@ == trimmed_end(s@),
{
    let chars = chars_of(s);
    let mut to: usize = chars.len();
    while to > 0 && crate::text::is_whitespace(chars[to - 1])
        invariant
            to <= chars@.len(),
            forall|i: int| to <= i < chars@.len() ==> crate::text::is_space(#[trigger] chars@[i]),
        decreases to,
    {
        to -= 1;
    }
    proof {
        crate::text::lemma_trailing_spaces(chars@, chars@.len() - to);
        assert(chars@.subrange(0, to as int) =~= chars@.take(to as int));
    }
    string_of_range(chars.as_slice(), 0, to)
}

/// The records of a domain as plain text, kind by kind.
pub fn format_domain_expertise_plain(
    domain: &str,
    records: &[ExpertiseRecord],
    last_updated: Option<&str>,
    now_millis: i64,
) -> (out: String)
    ensures
        out@ == domain_plain(domain@, records@, last_updated, now_millis),
{
    proof {
        reveal_strlit("");
        assert(""@ =~= Seq::<char>::empty());
    }
    let updated = format_updated(last_updated, now_millis, " (updated ", ")");
    let mut lines: Vec<String> = Vec::new();
    lines.push(format_heading("[", domain, "] ", records.len(), updated.as_str(), ""));
    lines.push(String::new());
    let ghost top = strs(lines@);
    assert(top =~= seq![lines@[0]@, Seq::empty()]);
    let kinds = kinds_in_order();
    let mut k: usize = 0;
    assert(strs(lines@) =~= top + plain_blocks(records@, 0));
    while k < 6
        invariant
            k <= 6,
            kinds@ == listed_kinds(),
            strs(lines@) == top + plain_blocks(records@, k as int),
        decreases 6 - k,
    {
        let kind = kinds[k];
        let entries = entries_of_kind(records, kind, EntryStyle::Plain);
        if entries.len() > 0 {
            let ghost before = strs(lines@);
            let mut title = String::new();
            title.append(title_of(kind));
            title.append(":");
            let ghost l0 = lines@;
            lines.push(title);
            proof {
                lemma_strs_push(l0, lines@.last());
            }
            let mut e: usize = 0;
            while e < entries.len()
                invariant
                    e <= entries@.len(),
                    strs(lines@) == before.push(kind_title(kind) + ":"@) + strs(entries@).take(
                        e as int,
                    ),
                decreases entries.len() - e,
            {
                let ghost l1 = lines@;
                lines.push(entries[e].clone());
                proof {
                    lemma_strs_push(l1, lines@.last());
                    assert(strs(entries@).take(e + 1) =~= strs(entries@).take(e as int).push(
                        entries@[e as int]@,
                    ));
                    assert(strs(lines@) =~= before.push(kind_title(kind) + ":"@) + strs(
                        entries@,
                    ).take(e + 1));
                }
                e += 1;
            }
            let ghost l2 = lines@;
            lines.push(String::new());
            proof {
                lemma_strs_push(l2, lines@.last());
                assert(strs(entries@).take(entries@.len() as int) =~= strs(entries@));
                assert(strs(lines@) =~= top + (plain_blocks(records@, k as int) + seq![
                    kind_title(kind) + ":"@,
                ] + strs(entries@) + seq![Seq::empty()]));
            }
        }
        k += 1;
    }
    trim_end(join(lines.as_slice(), "\n").as_str())
}

// ── XML ────────────────────────────────────────────────────────────────────

/// A character as it stands in XML text.
pub open spec fn escaped_char(c: char) -> Seq<char> {
    if c == '&' {
        "&amp;"@
    } else if c == '<' {
        "&lt;"@
    } else if c == '>' {
        "&gt;"@
    } else {
        seq![c]
    }
}

/// The text with ampersands and angle brackets written as entities.
pub open spec fn escaped(s: Seq<char>) -> Seq<char>
    decreases s.len(),
{
    if s.len() == 0 {
        Seq::empty()
    } else {
        escaped(s.drop_last()) + escaped_char(s.last())
    }
}

/// The text with ampersands and angle brackets written as entities.
pub fn xml_escape(s: &str) -> (out: String)
    ensures
        out@ == escaped(s@),
{
    let chars = chars_of(s);
    let mut out = String::new();
    let mut i: usize = 0;
    assert(chars@.take(0) =~= Seq::empty());
    while i < chars.len()
        invariant
            i <= chars@.len(),
            chars@ == s@,
            out@ == escaped(chars@.take(i as int)),
        decreases chars.len() - i,
    {
        proof {
            assert(chars@.take(i + 1).drop_last() =~= chars@.take(i as int));
            assert(chars@.take(i + 1).last() == chars@[i as int]);
        }
        let c = chars[i];
        let ghost before = out@;
        if c == '&' {
            out.append("&amp;");
        } else if c == '<' {
            out.append("&lt;");
        } else if c == '>' {
            out.append("&gt;");
        } else {
            push_char(&mut out, c);
            assert(out@ =~= before + seq![c]);
        }
        i += 1;
    }
    assert(chars@.take(chars@.len() as int) =~= chars@);
    out
}

/// An element on a line of its own, inside a record.
pub open spec fn element(tag: Seq<char>, content: Seq<char>) -> Seq<char> {
    "    <"@ + tag + ">"@ + content + "</"@ + tag + ">"@
}

fn xml_element(tag: &str, content: &str) -> (out: String)
    ensures
        out@ == element(tag@, content@),
{
    let mut out = String::new();
    out.append("    <");
    out.append(tag);
    out.append(">");
    out.append(content);
    out.append("</");
    out.append(tag);
    out.append(">");
    out
}

/// The items, each escaped if `escape` says so.
pub open spec fn items_text(items: Seq<Seq<char>>, escape: bool) -> Seq<Seq<char>> {
    Seq::new(items.len(), |i: int| if escape { escaped(items[i]) } else { items[i] })
}

/// The element for a list: its items joined by commas; nothing where the
/// list is missing or empty.
pub open spec fn list_element(tag: Seq<char>, items: Option<Vec<String>>, escape: bool) -> Seq<
    Seq<char>,
> {
    match items {
        Some(v) => if v@.len() > 0 {
            seq![element(tag, joined(items_text(strs(v@), escape), ", "@))]
        } else {
            Seq::empty()
        },
        None => Seq::empty(),
    }
}

fn push_list_element(
    lines: &mut Vec<String>,
    tag: &str,
    items: Option<&[String]>,
    escape: bool,
    Ghost(field): Ghost<Option<Vec<String>>>,
)
    requires
        crate::types::opt_slice_is(items, field),
    ensures
        strs(final(lines)@) == strs(old(lines)@) + list_element(tag@, field, escape),
{
    let v = match items {
        Some(v) => v,
        None => {
            assert(strs(lines@) =~= strs(old(lines)@) + Seq::empty());
            return ;
        },
    };
    if v.len() == 0 {
        assert(strs(lines@) =~= strs(old(lines)@) + Seq::empty());
        return ;
    }
    let mut texts: Vec<String> = Vec::new();
    let mut i: usize = 0;
    while i < v.len()
        invariant
            i <= v@.len(),
            texts@.len() == i,
            forall|j: int|
                0 <= j < i ==> (#[trigger] texts@[j])@ == items_text(strs(v@), escape)[j],
        decreases v.len() - i,
    {
        if escape {
            texts.push(xml_escape(v[i].as_str()));
        } else {
            texts.push(v[i].clone());
        }
        i += 1;
    }
    assert(strs(texts@) =~= items_text(strs(v@), escape));
    let line = xml_element(tag, join(texts.as_slice(), ", ").as_str());
    lines.push(line);
    proof {
        lemma_strs_push(old(lines)@, lines@.last());
        assert(lines@ =~= old(lines)@.push(lines@.last()));
        assert(strs(old(lines)@).push(lines@.last()@) =~= strs(old(lines)@) + seq![lines@.last()@]);
    }
}

/// The element of one outcome.
pub open spec fn outcome_element(o: Outcome) -> Seq<char> {
    "    <outcome status=\""@ + o.status.name() + "\""@ + (match o.duration {
        Some(d) => " duration=\""@ + d@ + "\""@,
        None => Seq::empty(),
    }) + (match o.agent {
        Some(a) => " agent=\""@ + escaped(a@) + "\""@,
        None => Seq::empty(),
    }) + ">"@ + (match o.test_results {
        Some(t) => escaped(t@),
        None => Seq::empty(),
    }) + "</outcome>"@
}

fn format_outcome_element(o: &Outcome) -> (out: String)
    ensures
        out@ == outcome_element(*o),
{
    let mut out = String::new();
    out.append("    <outcome status=\"");
    out.append(o.status.as_str());
    out.append("\"");
    let ghost a0 = out@;
    match &o.duration {
        Some(d) => {
            out.append(" duration=\"");
            out.append(d.as_str());
            out.append("\"");
            assert(out@ =~= a0 + (" duration=\""@ + d@ + "\""@));
        },
        None => {
            assert(out@ =~= a0 + Seq::<char>::empty());
        },
    }
    let ghost a1 = out@;
    match &o.agent {
        Some(a) => {
            out.append(" agent=\"");
            out.append(xml_escape(a.as_str()).as_str());
            out.append("\"");
            assert(out@ =~= a1 + (" agent=\""@ + escaped(a@) + "\""@));
        },
        None => {
            assert(out@ =~= a1 + Seq::<char>::empty());
        },
    }
    out.append(">");
    let ghost a2 = out@;
    match &o.test_results {
        Some(t) => {
            out.append(xml_escape(t.as_str()).as_str());
        },
        None => {
            assert(out@ =~= a2 + Seq::<char>::empty());
        },
    }
    out.append("</outcome>");
    out
}

/// The elements of the outcomes.
pub open spec fn outcome_elements(outcomes: Seq<Outcome>) -> Seq<Seq<char>> {
    Seq::new(outcomes.len(), |i: int| outcome_element(outcomes[i]))
}

/// The lines that hold what a record of its kind says.
pub open spec fn xml_body(r: ExpertiseRecord) -> Seq<Seq<char>> {
    match r {
        ExpertiseRecord::Convention { content, .. } => seq!["    "@ + escaped(content@)],
        ExpertiseRecord::Pattern { name, description, files, .. } => seq![
            element("name"@, escaped(name@)),
            element("description"@, escaped(description@)),
        ] + list_element("files"@, files, true),
        ExpertiseRecord::Failure { description, resolution, .. } => seq![
            element("description"@, escaped(description@)),
            element("resolution"@, escaped(resolution@)),
        ],
        ExpertiseRecord::Decision { title, rationale, .. } => seq![
            element("title"@, escaped(title@)),
            element("rationale"@, escaped(rationale@)),
        ],
        ExpertiseRecord::Reference { name, description, files, .. } => seq![
            element("name"@, escaped(name@)),
            element("description"@, escaped(description@)),
        ] + list_element("files"@, files, true),
        ExpertiseRecord::Guide { name, description, .. } => seq![
            element("name"@, escaped(name@)),
            element("description"@, escaped(description@)),
        ],
    }
}

/// The opening tag of a record.
pub open spec fn open_tag(r: ExpertiseRecord) -> Seq<char> {
    "  <"@ + r.kind().name() + (match r.id_view() {
        Some(id) => " id=\""@ + escaped(id) + "\""@,
        None => Seq::empty(),
    }) + " classification=\""@ + r.spec_classification().name() + "\">"@
}

/// The closing tag of a record.
pub open spec fn close_tag(r: ExpertiseRecord) -> Seq<char> {
    "  </"@ + r.kind().name() + ">"@
}

/// The lines of a record: its opening tag, what it says, its tags and
/// links, its outcomes, its closing tag.
pub open spec fn xml_record_lines(r: ExpertiseRecord) -> Seq<Seq<char>> {
    seq![open_tag(r)] + xml_body(r) + list_element("tags"@, r.spec_tags(), true) + list_element(
        "relates_to"@,
        r.spec_relates_to(),
        false,
    ) + list_element("supersedes"@, r.spec_supersedes(), false) + outcome_elements(
        r.outcome_seq(),
    ) + seq![close_tag(r)]
}

fn push_two(lines: &mut Vec<String>, first_tag: &str, first: &str, second_tag: &str, second: &str)
    ensures
        strs(final(lines)@) == strs(old(lines)@) + seq![
            element(first_tag@, escaped(first@)),
            element(second_tag@, escaped(second@)),
        ],
{
    lines.push(xml_element(first_tag, xml_escape(first).as_str()));
    lines.push(xml_element(second_tag, xml_escape(second).as_str()));
    assert(strs(lines@) =~= strs(old(lines)@) + seq![
        element(first_tag@, escaped(first@)),
        element(second_tag@, escaped(second@)),
    ]);
}

fn format_open_tag(record: &ExpertiseRecord) -> (open: String)
    ensures
        open@ == open_tag(*record),
{
    let mut open = String::new();
    open.append("  <");
    open.append(record.record_type().as_str());
    let ghost o0 = open@;
    match record.id() {
        Some(id) => {
            open.append(" id=\"");
            open.append(xml_escape(id).as_str());
            open.append("\"");
            assert(open@ =~= o0 + (" id=\""@ + escaped(id@) + "\""@));
        },
        None => {
            assert(open@ =~= o0 + Seq::<char>::empty());
        },
    }
    open.append(" classification=\"");
    open.append(record.classification().as_str());
    open.append("\">");
    open
}

fn format_close_tag(record: &ExpertiseRecord) -> (close: String)
    ensures
        close@ == close_tag(*record),
{
    let mut close = String::new();
    close.append("  </");
    close.append(record.record_type().as_str());
    close.append(">");
    close
}

fn push_body(lines: &mut Vec<String>, record: &ExpertiseRecord)
    ensures
        strs(final(lines)@) == strs(old(lines)@) + xml_body(*record),
{
    let ghost opened = strs(lines@);
    match record {
        ExpertiseRecord::Convention { content, .. } => {
            let mut line = String::new();
            line.append("    ");
            line.append(xml_escape(content.as_str()).as_str());
            let ghost l1 = lines@;
            lines.push(line);
            proof {
                lemma_strs_push(l1, lines@.last());
                assert(strs(lines@) =~= opened + xml_body(*record));
            }
        },
        ExpertiseRecord::Pattern { name, description, .. }
        | ExpertiseRecord::Reference { name, description, .. } => {
            push_two(lines, "name", name.as_str(), "description", description.as_str());
            push_list_element(lines, "files", record.files(), true, Ghost(record.spec_files()));
            assert(strs(lines@) =~= opened + xml_body(*record));
        },
        ExpertiseRecord::Failure { description, resolution, .. } => {
            push_two(lines, "description", description.as_str(), "resolution", resolution.as_str());
        },
        ExpertiseRecord::Decision { title, rationale, .. } => {
            push_two(lines, "title", title.as_str(), "rationale", rationale.as_str());
        },
        ExpertiseRecord::Guide { name, description, .. } => {
            push_two(lines, "name", name.as_str(), "description", description.as_str());
        },
    }
}

fn push_outcomes(lines: &mut Vec<String>, record: &ExpertiseRecord)
    ensures
        strs(final(lines)@) == strs(old(lines)@) + outcome_elements(record.outcome_seq()),
{
    let ghost listed = strs(lines@);
    match record.outcomes() {
        Some(outcomes) => {
            let mut i: usize = 0;
            assert(strs(lines@) =~= listed + outcome_elements(outcomes@).take(0));
            while i < outcomes.len()
                invariant
                    i <= outcomes@.len(),
                    strs(lines@) == listed + outcome_elements(outcomes@).take(i as int),
                decreases outcomes.len() - i,
            {
                let ghost l2 = lines@;
                lines.push(format_outcome_element(&outcomes[i]));
                proof {
                    lemma_strs_push(l2, lines@.last());
                    assert(outcome_elements(outcomes@).take(i + 1) =~= outcome_elements(
                        outcomes@,
                    ).take(i as int).push(outcome_element(outcomes@[i as int])));
                    assert(strs(lines@) =~= listed + outcome_elements(outcomes@).take(i + 1));
                }
                i += 1;
            }
            assert(outcome_elements(outcomes@).take(outcomes@.len() as int) =~= outcome_elements(
                outcomes@,
            ));
        },
        None => {
            assert(strs(lines@) =~= listed + outcome_elements(record.outcome_seq()));
        },
    }
}

fn push_line(lines: &mut Vec<String>, line: String)
    ensures
        strs(final(lines)@) == strs(old(lines)@) + seq![line@],
{
    lines.push(line);
    proof {
        lemma_strs_push(old(lines)@, line);
        assert(strs(old(lines)@).push(line@) =~= strs(old(lines)@) + seq![line@]);
    }
}

fn push_record_lines(lines: &mut Vec<String>, record: &ExpertiseRecord)
    ensures
        strs(final(lines)@) == strs(old(lines)@) + xml_record_lines(*record),
{
    let ghost start = strs(lines@);
    push_line(lines, format_open_tag(record));
    push_body(lines, record);
    push_list_element(lines, "tags", record.tags(), true, Ghost(record.spec_tags()));
    push_list_element(
        lines,
        "relates_to",
        record.relates_to(),
        false,
        Ghost(record.spec_relates_to()),
    );
    push_list_element(
        lines,
        "supersedes",
        record.supersedes(),
        false,
        Ghost(record.spec_supersedes()),
    );
    push_outcomes(lines, record);
    push_line(lines, format_close_tag(record));
    assert(strs(lines@) =~= start + xml_record_lines(*record));
}

/// The lines of all records, record after record.
pub open spec fn all_record_lines(records: Seq<ExpertiseRecord>) -> Seq<Seq<char>>
    decreases records.len(),
{
    if records.len() == 0 {
        Seq::empty()
    } else {
        all_record_lines(records.drop_last()) + xml_record_lines(records.last())
    }
}

/// The records of a domain as XML.
pub open spec fn domain_xml(
    domain: Seq<char>,
    records: Seq<ExpertiseRecord>,
    last_updated: Option<&str>,
    now_millis: i64,
) -> Seq<char> {
    joined(
        seq![
            "<domain name=\""@ + escaped(domain) + "\" entries=\""@ + decimal_text(records.len())
                + "\""@ + updated_text(last_updated, now_millis, " updated=\""@, "\""@) + ">"@,
        ] + all_record_lines(records) + seq!["</domain>"@],
        "\n"@,
    )
}

/// The records of a domain as XML, one element for each record.
pub fn format_domain_expertise_xml(
    domain: &str,
    records: &[ExpertiseRecord],
    last_updated: Option<&str>,
    now_millis: i64,
) -> (out: String)
    ensures
        out@ == domain_xml(domain@, records@, last_updated, now_millis),
{
    let mut open = String::new();
    open.append("<domain name=\"");
    open.append(xml_escape(domain).as_str());
    open.append("\" entries=\"");
    open.append(decimal(records.len() as u64).as_str());
    open.append("\"");
    open.append(format_updated(last_updated, now_millis, " updated=\"", "\"").as_str());
    open.append(">");
    let mut lines: Vec<String> = Vec::new();
    lines.push(open);
    let ghost top = strs(lines@);
    assert(top =~= seq![lines@[0]@]);
    let mut i: usize = 0;
    assert(records@.take(0) =~= Seq::empty());
    assert(strs(lines@) =~= top + all_record_lines(records@.take(0)));
    while i < records.len()
        invariant
            i <= records@.len(),
            strs(lines@) == top + all_record_lines(records@.take(i as int)),
        decreases records.len() - i,
    {
        proof {
            assert(records@.take(i + 1).drop_last() =~= records@.take(i as int));
            assert(records@.take(i + 1).last() == records@[i as int]);
        }
        let ghost before = strs(lines@);
        push_record_lines(&mut lines, &records[i]);
        assert(strs(lines@) =~= top + all_record_lines(records@.take(i + 1)));
        i += 1;
    }
    assert(records@.take(records@.len() as int) =~= records@);
    let ghost l0 = lines@;
    lines.push("</domain>".to_owned());
    proof {
        lemma_strs_push(l0, lines@.last());
        assert(strs(lines@) =~= top + all_record_lines(records@) + seq!["</domain>"@]);
    }
    join(lines.as_slice(), "\n")
}

} // verus!
