use mulch_core::types::{
    Classification, Evidence, ExpertiseRecord, MulchConfig, Outcome, OutcomeStatus, RecordType,
};

fn pattern() -> ExpertiseRecord {
    ExpertiseRecord::Pattern {
        id: Some("mx-abc123".to_string()),
        name: "Error Handling".to_string(),
        description: "Always wrap in try/catch".to_string(),
        files: Some(vec!["src/utils.ts".to_string()]),
        classification: Classification::Tactical,
        recorded_at: "2024-01-01T00:00:00.000Z".to_string(),
        evidence: None,
        tags: Some(vec!["rust".to_string(), "error".to_string()]),
        relates_to: None,
        supersedes: None,
        outcomes: Some(vec![Outcome {
            status: OutcomeStatus::Success,
            duration: None,
            test_results: None,
            agent: Some("builder".to_string()),
            notes: None,
            recorded_at: None,
        }]),
    }
}

#[test]
fn config_default() {
    let config = MulchConfig::default();
    assert_eq!(config.version, "1");
    assert!(config.domains.is_empty());
    assert_eq!(config.governance.max_entries, 100);
    assert_eq!(config.classification_defaults.shelf_life.tactical, 14);
}

#[test]
fn config_default_thresholds() {
    let config = MulchConfig::default();
    assert_eq!(config.governance.warn_entries, 150);
    assert_eq!(config.governance.hard_limit, 200);
    assert_eq!(config.classification_defaults.shelf_life.observational, 30);
}

#[test]
fn names_of_the_enums() {
    assert_eq!(RecordType::Convention.as_str(), "convention");
    assert_eq!(RecordType::Pattern.as_str(), "pattern");
    assert_eq!(RecordType::Failure.as_str(), "failure");
    assert_eq!(RecordType::Decision.as_str(), "decision");
    assert_eq!(RecordType::Reference.as_str(), "reference");
    assert_eq!(RecordType::Guide.as_str(), "guide");
    assert_eq!(Classification::Foundational.as_str(), "foundational");
    assert_eq!(Classification::Tactical.as_str(), "tactical");
    assert_eq!(Classification::Observational.as_str(), "observational");
    assert_eq!(OutcomeStatus::Success.as_str(), "success");
    assert_eq!(OutcomeStatus::Failure.as_str(), "failure");
    assert_eq!(OutcomeStatus::Partial.as_str(), "partial");
}

#[test]
fn accessors_read_the_fields() {
    let record = pattern();
    assert_eq!(record.id(), Some("mx-abc123"));
    assert_eq!(record.record_type(), RecordType::Pattern);
    assert_eq!(record.classification(), Classification::Tactical);
    assert_eq!(record.recorded_at(), "2024-01-01T00:00:00.000Z");
    assert!(record.is_named_type());
    assert_eq!(record.tags().unwrap().len(), 2);
    assert_eq!(record.outcomes().unwrap().len(), 1);
    assert_eq!(record.files().unwrap(), &["src/utils.ts".to_string()][..]);
    assert!(record.evidence().is_none());
    assert!(record.relates_to().is_none());
    assert!(record.supersedes().is_none());
    assert_eq!(record.key_text(), "Error Handling");
}

#[test]
fn setters_change_one_field() {
    let mut record = pattern();
    record.set_id("mx-000000".to_string());
    record.set_classification(Classification::Foundational);
    record.set_tags(None);
    record.set_relates_to(Some(vec!["mx-1".to_string()]));
    record.set_supersedes(Some(vec!["mx-2".to_string(), "mx-3".to_string()]));
    record.set_outcomes(None);
    assert_eq!(record.id(), Some("mx-000000"));
    assert_eq!(record.classification(), Classification::Foundational);
    assert!(record.tags().is_none());
    assert_eq!(record.relates_to().unwrap(), &["mx-1".to_string()][..]);
    assert_eq!(record.supersedes().unwrap().len(), 2);
    assert!(record.outcomes().is_none());
    assert_eq!(record.key_text(), "Error Handling");
    assert_eq!(record.files().unwrap().len(), 1);
    assert_eq!(record.recorded_at(), "2024-01-01T00:00:00.000Z");
}

#[test]
fn content_kinds_are_not_named() {
    let convention = ExpertiseRecord::Convention {
        id: None,
        content: "c".to_string(),
        classification: Classification::Foundational,
        recorded_at: "2024-01-01T00:00:00.000Z".to_string(),
        evidence: Some(Evidence {
            commit: Some("abc".to_string()),
            date: None,
            issue: None,
            file: None,
            bead: None,
        }),
        tags: None,
        relates_to: None,
        supersedes: None,
        outcomes: None,
    };
    assert!(!convention.is_named_type());
    assert!(convention.files().is_none());
    assert_eq!(convention.id(), None);
    assert_eq!(convention.evidence().unwrap().commit.as_deref(), Some("abc"));
    assert_eq!(convention.key_text(), "c");
}
