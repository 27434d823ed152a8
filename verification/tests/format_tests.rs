use mulch_core::format::{
    format_prime_output, format_prime_output_compact, format_prime_output_plain,
    format_prime_output_xml, format_status_output, format_time_ago, get_session_end_reminder,
    DomainStat, PrimeFormat,
};
use mulch_core::types::Governance;

// 2024-01-01T00:00:00Z
const START: i64 = 1_704_067_200_000;

const PRIME_EMPTY: &str = "# Project Expertise (via Mulch)\n\n> **Context Recovery**: Run `mulch prime` after compaction, clear, or new session\n\n## Rules\n\n- **Record learnings**: When you discover a pattern, fix a bug, or make a design decision \u{2014} record it with `mulch record`\n- **Check expertise first**: Before implementing, check if relevant expertise exists with `mulch search` or `mulch prime --context`\n- **Targeted priming**: Use `mulch prime --files src/foo.ts` to load only records relevant to specific files\n- **Do NOT** store expertise in code comments, markdown files, or memory tools \u{2014} use `mulch record`\n- Run `mulch doctor` if you are unsure whether records are healthy\n\nNo expertise recorded yet. Use `mulch add <domain>` to create a domain, then `mulch record` to add records.\n\n\n## Recording New Learnings\n\nWhen you discover a pattern, convention, failure, or make an architectural decision:\n\n```bash\nmulch record <domain> --type convention \"description\"\nmulch record <domain> --type failure --description \"...\" --resolution \"...\"\nmulch record <domain> --type decision --title \"...\" --rationale \"...\"\nmulch record <domain> --type pattern --name \"...\" --description \"...\" --files \"...\"\nmulch record <domain> --type reference --name \"...\" --description \"...\" --files \"...\"\nmulch record <domain> --type guide --name \"...\" --description \"...\"\n```\n\n**Link evidence** to records when available:\n\n```bash\nmulch record <domain> --type pattern --name \"...\" --description \"...\" --evidence-commit abc123\nmulch record <domain> --type decision --title \"...\" --rationale \"...\" --evidence-bead beads-xxx\n```\n\n**Batch record** multiple records at once:\n\n```bash\nmulch record <domain> --batch records.json  # from file\necho '[{\"type\":\"convention\",\"content\":\"...\"}]' | mulch record <domain> --stdin  # from stdin\n```\n\n## Searching Expertise\n\nUse `mulch search` to find relevant records across all domains. Results are ranked by relevance (BM25):\n\n```bash\nmulch search \"file locking\"              # multi-word queries ranked by relevance\nmulch search \"atomic\" --domain cli        # limit to a specific domain\nmulch search \"ESM\" --type convention      # filter by record type\nmulch search \"concurrency\" --tag safety   # filter by tag\n```\n\nSearch before implementing \u{2014} existing expertise may already cover your use case.\n\n## Domain Maintenance\n\nWhen a domain grows large, compact it to keep expertise focused:\n\n```bash\nmulch compact --auto --dry-run     # preview what would be merged\nmulch compact --auto               # merge same-type record groups\n```\n\nUse `mulch diff` to review what expertise changed:\n\n```bash\nmulch diff HEAD~3                  # see record changes over last 3 commits\n```\n\n## Session End\n\n**IMPORTANT**: Before ending your session, record what you learned and sync:\n\n```\n[ ] mulch learn          # see what files changed \u{2014} decide what to record\n[ ] mulch record ...     # record learnings (see above)\n[ ] mulch sync           # validate, stage, and commit .mulch/ changes\n```\n\nDo NOT skip this. Unrecorded learnings are lost for the next session.";

const COMPACT_EMPTY: &str = "# Project Expertise (via Mulch)\n\nNo expertise recorded yet. Use `mulch add <domain>` to create a domain, then `mulch record` to add records.\n\n## Quick Reference\n\n- `mulch search \"query\"` \u{2014} find relevant records before implementing\n- `mulch prime --files src/foo.ts` \u{2014} load records for specific files\n- `mulch prime --context` \u{2014} load records for git-changed files\n- `mulch record <domain> --type <type> --description \"...\"`\n  - Types: `convention`, `pattern`, `failure`, `decision`, `reference`, `guide`\n  - Evidence: `--evidence-commit <sha>`, `--evidence-bead <id>`\n- `mulch doctor` \u{2014} check record health";

const XML_EMPTY: &str = "<expertise>\n  <empty>No expertise recorded yet. Use mulch add and mulch record to get started.</empty>\n</expertise>";

const PLAIN_EMPTY: &str = "Project Expertise (via Mulch)\n============================\n\nNo expertise recorded yet. Use `mulch add <domain>` and `mulch record` to get started.";

const PRIME_FULL: &str = "# Project Expertise (via Mulch)\n\n> **Context Recovery**: Run `mulch prime` after compaction, clear, or new session\n\n## Rules\n\n- **Record learnings**: When you discover a pattern, fix a bug, or make a design decision \u{2014} record it with `mulch record`\n- **Check expertise first**: Before implementing, check if relevant expertise exists with `mulch search` or `mulch prime --context`\n- **Targeted priming**: Use `mulch prime --files src/foo.ts` to load only records relevant to specific files\n- **Do NOT** store expertise in code comments, markdown files, or memory tools \u{2014} use `mulch record`\n- Run `mulch doctor` if you are unsure whether records are healthy\n\n## a (1 records)\n\n## b (2 records)\n\n\n## Recording New Learnings\n\nWhen you discover a pattern, convention, failure, or make an architectural decision:\n\n```bash\nmulch record <domain> --type convention \"description\"\nmulch record <domain> --type failure --description \"...\" --resolution \"...\"\nmulch record <domain> --type decision --title \"...\" --rationale \"...\"\nmulch record <domain> --type pattern --name \"...\" --description \"...\" --files \"...\"\nmulch record <domain> --type reference --name \"...\" --description \"...\" --files \"...\"\nmulch record <domain> --type guide --name \"...\" --description \"...\"\n```\n\n**Link evidence** to records when available:\n\n```bash\nmulch record <domain> --type pattern --name \"...\" --description \"...\" --evidence-commit abc123\nmulch record <domain> --type decision --title \"...\" --rationale \"...\" --evidence-bead beads-xxx\n```\n\n**Batch record** multiple records at once:\n\n```bash\nmulch record <domain> --batch records.json  # from file\necho '[{\"type\":\"convention\",\"content\":\"...\"}]' | mulch record <domain> --stdin  # from stdin\n```\n\n## Searching Expertise\n\nUse `mulch search` to find relevant records across all domains. Results are ranked by relevance (BM25):\n\n```bash\nmulch search \"file locking\"              # multi-word queries ranked by relevance\nmulch search \"atomic\" --domain cli        # limit to a specific domain\nmulch search \"ESM\" --type convention      # filter by record type\nmulch search \"concurrency\" --tag safety   # filter by tag\n```\n\nSearch before implementing \u{2014} existing expertise may already cover your use case.\n\n## Domain Maintenance\n\nWhen a domain grows large, compact it to keep expertise focused:\n\n```bash\nmulch compact --auto --dry-run     # preview what would be merged\nmulch compact --auto               # merge same-type record groups\n```\n\nUse `mulch diff` to review what expertise changed:\n\n```bash\nmulch diff HEAD~3                  # see record changes over last 3 commits\n```\n\n## Session End\n\n**IMPORTANT**: Before ending your session, record what you learned and sync:\n\n```\n[ ] mulch learn          # see what files changed \u{2014} decide what to record\n[ ] mulch record ...     # record learnings (see above)\n[ ] mulch sync           # validate, stage, and commit .mulch/ changes\n```\n\nDo NOT skip this. Unrecorded learnings are lost for the next session.";

const COMPACT_FULL: &str = "# Project Expertise (via Mulch)\n\n## a (1 records)\n\n## b (2 records)\n\n## Quick Reference\n\n- `mulch search \"query\"` \u{2014} find relevant records before implementing\n- `mulch prime --files src/foo.ts` \u{2014} load records for specific files\n- `mulch prime --context` \u{2014} load records for git-changed files\n- `mulch record <domain> --type <type> --description \"...\"`\n  - Types: `convention`, `pattern`, `failure`, `decision`, `reference`, `guide`\n  - Evidence: `--evidence-commit <sha>`, `--evidence-bead <id>`\n- `mulch doctor` \u{2014} check record health";

const XML_FULL: &str = "<expertise>\n## a (1 records)\n## b (2 records)\n</expertise>";

const PLAIN_FULL: &str = "Project Expertise (via Mulch)\n============================\n\n## a (1 records)\n\n## b (2 records)";

const REMINDER_XML: &str = "<session_close_protocol priority=\"critical\">\n  <instruction>Before saying done or complete, you MUST run this checklist:</instruction>\n  <checklist>\n    <step>mulch learn \u{2014} see what files changed, decide what to record</step>\n    <step>mulch record &lt;domain&gt; --type &lt;type&gt; --description &quot;...&quot;</step>\n    <step>mulch sync \u{2014} validate, stage, and commit .mulch/ changes</step>\n  </checklist>\n  <warning>NEVER skip this. Unrecorded learnings are lost for the next session.</warning>\n</session_close_protocol>";

const REMINDER_PLAIN: &str = "=== SESSION CLOSE PROTOCOL (CRITICAL) ===\n\nBefore saying \"done\" or \"complete\", you MUST run this checklist:\n\n[ ] 1. mulch learn              (see what files changed \u{2014} decide what to record)\n[ ] 2. mulch record <domain> --type <type> --description \"...\"\n[ ] 3. mulch sync               (validate, stage, and commit .mulch/ changes)\n\nNEVER skip this. Unrecorded learnings are lost for the next session.";

const REMINDER_MARKDOWN: &str = "# \u{1f6a8} SESSION CLOSE PROTOCOL \u{1f6a8}\n\n**CRITICAL**: Before saying \"done\" or \"complete\", you MUST run this checklist:\n\n```\n[ ] 1. mulch learn              # see what files changed \u{2014} decide what to record\n[ ] 2. mulch record <domain> --type <type> --description \"...\"\n[ ] 3. mulch sync               # validate, stage, and commit .mulch/ changes\n```\n\n**NEVER skip this.** Unrecorded learnings are lost for the next session.";

fn sections() -> Vec<String> {
    vec!["## a (1 records)".to_string(), "## b (2 records)".to_string()]
}

#[test]
fn prime_output_without_domains() {
    assert_eq!(format_prime_output(&[]), PRIME_EMPTY);
    assert_eq!(format_prime_output_compact(&[]), COMPACT_EMPTY);
    assert_eq!(format_prime_output_xml(&[]), XML_EMPTY);
    assert_eq!(format_prime_output_plain(&[]), PLAIN_EMPTY);
}

#[test]
fn prime_output_with_domains() {
    assert_eq!(format_prime_output(&sections()), PRIME_FULL);
    assert_eq!(format_prime_output_compact(&sections()), COMPACT_FULL);
    assert_eq!(format_prime_output_xml(&sections()), XML_FULL);
    assert_eq!(format_prime_output_plain(&sections()), PLAIN_FULL);
}

#[test]
fn session_end_reminders() {
    assert_eq!(get_session_end_reminder(PrimeFormat::Xml), REMINDER_XML);
    assert_eq!(get_session_end_reminder(PrimeFormat::Plain), REMINDER_PLAIN);
    assert_eq!(get_session_end_reminder(PrimeFormat::Markdown), REMINDER_MARKDOWN);
}

#[test]
fn time_ago_in_the_largest_unit() {
    let at = "2024-01-01T00:00:00.000Z";
    assert_eq!(format_time_ago(at, START), "just now");
    assert_eq!(format_time_ago(at, START - 5_000_000), "just now");
    assert_eq!(format_time_ago(at, START + 59_999), "just now");
    assert_eq!(format_time_ago(at, START + 60_000), "1m ago");
    assert_eq!(format_time_ago(at, START + 3_599_999), "59m ago");
    assert_eq!(format_time_ago(at, START + 3_600_000), "1h ago");
    assert_eq!(format_time_ago(at, START + 86_399_999), "23h ago");
    assert_eq!(format_time_ago(at, START + 86_400_000), "1d ago");
    assert_eq!(format_time_ago(at, START + 400 * 86_400_000), "400d ago");
    assert_eq!(format_time_ago("soon", START), "unknown");
    assert_eq!(format_time_ago("2024-01-01T01:00:00+01:00", START + 120_000), "2m ago");
}

#[test]
fn status_overview() {
    let governance = Governance { max_entries: 100, warn_entries: 150, hard_limit: 200 };
    assert_eq!(
        format_status_output(&[], &governance, START),
        "Mulch Status\n============\n\nNo domains configured. Run `mulch add <domain>` to get started."
    );
    let stats = vec![
        DomainStat { domain: "small".to_string(), count: 99, last_updated: None },
        DomainStat {
            domain: "near".to_string(),
            count: 100,
            last_updated: Some("2024-01-01T00:00:00.000Z".to_string()),
        },
        DomainStat {
            domain: "big".to_string(),
            count: 150,
            last_updated: Some("2023-12-31T22:00:00.000Z".to_string()),
        },
        DomainStat { domain: "huge".to_string(), count: 200, last_updated: Some("?".to_string()) },
    ];
    assert_eq!(
        format_status_output(&stats, &governance, START),
        "Mulch Status\n============\n\n  small: 99 records (updated never)\n  near: 100 records (updated just now) \u{2014} approaching limit\n  big: 150 records (updated 2h ago) \u{26a0} consider splitting domain\n  huge: 200 records (updated unknown) \u{26a0} OVER HARD LIMIT \u{2014} must decompose"
    );
}
