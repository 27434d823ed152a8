use mulch_core::filter::{filter_by_classification, filter_by_file, filter_by_type, find_duplicate};
use mulch_core::git::{file_matches_any, filter_by_context};
use mulch_core::types::{Classification, ExpertiseRecord, RecordType};

fn convention(content: &str) -> ExpertiseRecord {
    ExpertiseRecord::Convention {
        id: None,
        content: content.to_string(),
        classification: Classification::Foundational,
        recorded_at: "2024-01-01T00:00:00.000Z".to_string(),
        evidence: None,
        tags: None,
        relates_to: None,
        supersedes: None,
        outcomes: None,
    }
}

fn pattern(name: &str) -> ExpertiseRecord {
    ExpertiseRecord::Pattern {
        id: None,
        name: name.to_string(),
        description: "desc".to_string(),
        files: Some(vec!["src/main.rs".to_string()]),
        classification: Classification::Tactical,
        recorded_at: "2024-01-01T00:00:00.000Z".to_string(),
        evidence: None,
        tags: None,
        relates_to: None,
        supersedes: None,
        outcomes: None,
    }
}

fn guide(name: &str) -> ExpertiseRecord {
    ExpertiseRecord::Guide {
        id: None,
        name: name.to_string(),
        description: "desc".to_string(),
        classification: Classification::Observational,
        recorded_at: "2024-01-01T00:00:00.000Z".to_string(),
        evidence: None,
        tags: None,
        relates_to: None,
        supersedes: None,
        outcomes: None,
    }
}

fn keys(records: &[&ExpertiseRecord]) -> Vec<String> {
    records.iter().map(|r| r.key_text().to_string()).collect()
}

#[test]
fn filter_by_type_works() {
    let records = vec![convention("a"), pattern("b"), convention("c")];
    let filtered = filter_by_type(&records, RecordType::Convention);
    assert_eq!(filtered.len(), 2);
}

#[test]
fn filter_by_file_works() {
    let records = vec![convention("a"), pattern("b")];
    let filtered = filter_by_file(&records, "main.rs");
    assert_eq!(filtered.len(), 1);
}

#[test]
fn find_duplicate_convention() {
    let existing = vec![convention("test")];
    let new = convention("test");
    assert!(find_duplicate(&existing, &new).is_some());

    let different = convention("other");
    assert!(find_duplicate(&existing, &different).is_none());
}

#[test]
fn find_duplicate_named_type() {
    let existing = vec![pattern("Error Handling")];
    let new = pattern("Error Handling");
    assert!(find_duplicate(&existing, &new).is_some());

    let different = pattern("Logging");
    assert!(find_duplicate(&existing, &different).is_none());
}

#[test]
fn filters_keep_the_order() {
    let records = vec![convention("a"), pattern("b"), convention("c"), guide("d")];
    assert_eq!(keys(&filter_by_type(&records, RecordType::Convention)), vec!["a", "c"]);
    assert_eq!(keys(&filter_by_type(&records, RecordType::Guide)), vec!["d"]);
    assert!(filter_by_type(&records, RecordType::Decision).is_empty());
    assert_eq!(
        keys(&filter_by_classification(&records, Classification::Foundational)),
        vec!["a", "c"]
    );
    assert_eq!(keys(&filter_by_classification(&records, Classification::Tactical)), vec!["b"]);
    assert!(filter_by_type(&[], RecordType::Convention).is_empty());
}

#[test]
fn filter_by_file_ignores_case() {
    let records = vec![convention("a"), pattern("b"), guide("c")];
    assert_eq!(keys(&filter_by_file(&records, "MAIN.RS")), vec!["b"]);
    assert_eq!(keys(&filter_by_file(&records, "src/")), vec!["b"]);
    assert_eq!(keys(&filter_by_file(&records, "")), vec!["b"]);
    assert!(filter_by_file(&records, "lib.rs").is_empty());
}

#[test]
fn find_duplicate_gives_the_first() {
    let existing = vec![pattern("x"), convention("x"), convention("y"), convention("x")];
    let (i, found) = find_duplicate(&existing, &convention("x")).unwrap();
    assert_eq!(i, 1);
    assert_eq!(found.key_text(), "x");
    assert_eq!(find_duplicate(&existing, &pattern("x")).unwrap().0, 0);
    assert!(find_duplicate(&existing, &guide("x")).is_none());
    assert!(find_duplicate(&[], &guide("x")).is_none());
}

#[test]
fn files_match_by_suffix() {
    let changed = vec!["src/main.rs".to_string(), "README.md".to_string()];
    assert!(file_matches_any("src/main.rs", &changed));
    assert!(file_matches_any("main.rs", &changed));
    assert!(file_matches_any("crates/app/README.md", &changed));
    assert!(!file_matches_any("src/lib.rs", &changed));
    assert!(!file_matches_any("src/main", &changed));
    assert!(!file_matches_any("main.rs", &[]));
    assert!(file_matches_any("", &changed));
}

#[test]
fn context_keeps_records_without_files() {
    let other = ExpertiseRecord::Reference {
        id: None,
        name: "other".to_string(),
        description: "desc".to_string(),
        files: Some(vec!["docs/guide.md".to_string()]),
        classification: Classification::Tactical,
        recorded_at: "2024-01-01T00:00:00.000Z".to_string(),
        evidence: None,
        tags: None,
        relates_to: None,
        supersedes: None,
        outcomes: None,
    };
    let no_files = ExpertiseRecord::Pattern {
        id: None,
        name: "bare".to_string(),
        description: "desc".to_string(),
        files: Some(vec![]),
        classification: Classification::Tactical,
        recorded_at: "2024-01-01T00:00:00.000Z".to_string(),
        evidence: None,
        tags: None,
        relates_to: None,
        supersedes: None,
        outcomes: None,
    };
    let records = vec![convention("a"), pattern("b"), other, no_files];
    let changed = vec!["src/main.rs".to_string()];
    assert_eq!(keys(&filter_by_context(&records, &changed)), vec!["a", "b", "bare"]);
    assert_eq!(keys(&filter_by_context(&records, &[])), vec!["a", "bare"]);
}
