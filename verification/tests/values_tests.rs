use mulch_core::error::MulchError;
use mulch_core::types::{Classification, ExpertiseRecord, OutcomeStatus};
use mulch_core::upsert::{merge_record, merge_records, MergeAction, MergeCounts};
use mulch_core::values::{
    classification_or_tactical, parse_classification, parse_csv, parse_domain_flag,
    parse_file_paths, parse_outcome_status,
};

fn convention(content: &str, tag: &str) -> ExpertiseRecord {
    ExpertiseRecord::Convention {
        id: None,
        content: content.to_string(),
        classification: Classification::Foundational,
        recorded_at: "2024-01-01T00:00:00.000Z".to_string(),
        evidence: None,
        tags: Some(vec![tag.to_string()]),
        relates_to: None,
        supersedes: None,
        outcomes: None,
    }
}

fn pattern(name: &str, description: &str) -> ExpertiseRecord {
    ExpertiseRecord::Pattern {
        id: None,
        name: name.to_string(),
        description: description.to_string(),
        files: None,
        classification: Classification::Tactical,
        recorded_at: "2024-01-01T00:00:00.000Z".to_string(),
        evidence: None,
        tags: None,
        relates_to: None,
        supersedes: None,
        outcomes: None,
    }
}

fn described(records: &[ExpertiseRecord]) -> Vec<String> {
    records
        .iter()
        .map(|r| match r {
            ExpertiseRecord::Pattern { name, description, .. } => format!("{name}={description}"),
            ExpertiseRecord::Convention { content, tags, .. } => {
                format!("{content}#{}", tags.as_ref().unwrap()[0])
            }
            other => other.key_text().to_string(),
        })
        .collect()
}

#[test]
fn lists_separated_by_commas() {
    assert_eq!(parse_csv(" a, b ,,c "), vec!["a", "b", "c"]);
    assert_eq!(parse_csv("one"), vec!["one"]);
    assert_eq!(parse_csv("a b, c"), vec!["a b", "c"]);
    assert!(parse_csv("").is_empty());
    assert!(parse_csv(" , ,").is_empty());
    assert_eq!(parse_domain_flag("cli, core"), vec!["cli", "core"]);
    assert!(parse_domain_flag(",").is_empty());
}

#[test]
fn paths_separated_by_commas_or_spaces() {
    assert_eq!(
        parse_file_paths("a.rs, b.rs c.rs,,d.rs"),
        vec!["a.rs", "b.rs", "c.rs", "d.rs"]
    );
    assert_eq!(parse_file_paths("  src/x.rs\tsrc/y.rs\n"), vec!["src/x.rs", "src/y.rs"]);
    assert!(parse_file_paths(" , ").is_empty());
    assert!(parse_file_paths("").is_empty());
}

#[test]
fn names_of_tiers_and_statuses() {
    assert_eq!(parse_classification("foundational").unwrap(), Classification::Foundational);
    assert_eq!(parse_classification("tactical").unwrap(), Classification::Tactical);
    assert_eq!(parse_classification("observational").unwrap(), Classification::Observational);
    match parse_classification("Tactical") {
        Err(MulchError::ValidationError(detail)) => {
            assert_eq!(detail, "Invalid classification: Tactical")
        }
        other => panic!("unexpected: {:?}", other),
    }
    assert_eq!(classification_or_tactical("foundational"), Classification::Foundational);
    assert_eq!(classification_or_tactical("observational"), Classification::Observational);
    assert_eq!(classification_or_tactical("anything"), Classification::Tactical);
    assert_eq!(classification_or_tactical(""), Classification::Tactical);
    assert_eq!(parse_outcome_status("success").unwrap(), OutcomeStatus::Success);
    assert_eq!(parse_outcome_status("failure").unwrap(), OutcomeStatus::Failure);
    assert_eq!(parse_outcome_status("partial").unwrap(), OutcomeStatus::Partial);
    match parse_outcome_status("ok") {
        Err(MulchError::ValidationError(detail)) => assert_eq!(detail, "Invalid outcome status: ok"),
        other => panic!("unexpected: {:?}", other),
    }
}

#[test]
fn duplicates_are_replaced_or_skipped() {
    let mut records = vec![pattern("p", "old"), convention("c", "old")];
    assert_eq!(merge_record(&mut records, pattern("p", "new"), false), MergeAction::Updated(0));
    assert_eq!(described(&records), vec!["p=new", "c#old"]);
    assert_eq!(merge_record(&mut records, convention("c", "new"), false), MergeAction::Skipped(1));
    assert_eq!(described(&records), vec!["p=new", "c#old"]);
    assert_eq!(merge_record(&mut records, convention("d", "x"), false), MergeAction::Created);
    assert_eq!(described(&records), vec!["p=new", "c#old", "d#x"]);
    assert_eq!(merge_record(&mut records, convention("c", "forced"), true), MergeAction::Created);
    assert_eq!(merge_record(&mut records, pattern("p", "forced"), true), MergeAction::Created);
    assert_eq!(
        described(&records),
        vec!["p=new", "c#old", "d#x", "c#forced", "p=forced"]
    );
    assert_eq!(merge_record(&mut records, pattern("p", "again"), false), MergeAction::Updated(0));
    assert_eq!(
        described(&records),
        vec!["p=again", "c#old", "d#x", "c#forced", "p=forced"]
    );
    let mut empty: Vec<ExpertiseRecord> = Vec::new();
    assert_eq!(merge_record(&mut empty, pattern("p", "first"), false), MergeAction::Created);
    assert_eq!(described(&empty), vec!["p=first"]);
}

#[test]
fn a_batch_is_added_record_by_record() {
    let mut records = vec![pattern("p", "old")];
    let batch = vec![
        convention("c", "1"),
        pattern("p", "new"),
        convention("c", "2"),
        pattern("q", "1"),
        pattern("q", "2"),
    ];
    let counts = merge_records(&mut records, batch, false);
    assert_eq!(counts, MergeCounts { created: 2, updated: 2, skipped: 1 });
    assert_eq!(described(&records), vec!["p=new", "c#1", "q=2"]);
    let counts = merge_records(&mut records, vec![pattern("p", "x"), convention("c", "3")], true);
    assert_eq!(counts, MergeCounts { created: 2, updated: 0, skipped: 0 });
    assert_eq!(described(&records), vec!["p=new", "c#1", "q=2", "p=x", "c#3"]);
    let counts = merge_records(&mut records, Vec::new(), false);
    assert_eq!(counts, MergeCounts { created: 0, updated: 0, skipped: 0 });
}
