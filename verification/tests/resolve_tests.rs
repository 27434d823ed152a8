use mulch_core::error::MulchError;
use mulch_core::resolve::resolve_record_id;
use mulch_core::types::{Classification, ExpertiseRecord};

fn record_with_id(id: &str) -> ExpertiseRecord {
    ExpertiseRecord::Convention {
        id: Some(id.to_string()),
        content: format!("content for {id}"),
        classification: Classification::Foundational,
        recorded_at: "2024-01-01T00:00:00.000Z".to_string(),
        evidence: None,
        tags: None,
        relates_to: None,
        supersedes: None,
        outcomes: None,
    }
}

fn record_without_id() -> ExpertiseRecord {
    ExpertiseRecord::Convention {
        id: None,
        content: "no id".to_string(),
        classification: Classification::Foundational,
        recorded_at: "2024-01-01T00:00:00.000Z".to_string(),
        evidence: None,
        tags: None,
        relates_to: None,
        supersedes: None,
        outcomes: None,
    }
}

#[test]
fn exact_match() {
    let records = vec![record_with_id("mx-abc123")];
    let (i, _) = resolve_record_id(&records, "mx-abc123").unwrap();
    assert_eq!(i, 0);
}

#[test]
fn bare_hash_match() {
    let records = vec![record_with_id("mx-abc123")];
    let (i, _) = resolve_record_id(&records, "abc123").unwrap();
    assert_eq!(i, 0);
}

#[test]
fn prefix_match() {
    let records = vec![record_with_id("mx-abc123")];
    let (i, _) = resolve_record_id(&records, "abc").unwrap();
    assert_eq!(i, 0);
}

#[test]
fn not_found() {
    let records = vec![record_with_id("mx-abc123")];
    assert!(resolve_record_id(&records, "xyz").is_err());
}

#[test]
fn ambiguous() {
    let records = vec![record_with_id("mx-abc123"), record_with_id("mx-abc456")];
    let err = resolve_record_id(&records, "abc").unwrap_err();
    assert!(matches!(err, MulchError::AmbiguousId { .. }));
}

#[test]
fn resolver_tells_what_it_found() {
    let records = vec![
        record_without_id(),
        record_with_id("mx-abc123"),
        record_with_id("mx-abc456"),
    ];
    match resolve_record_id(&records, "abc") {
        Err(MulchError::AmbiguousId { id, count, ids }) => {
            assert_eq!(id, "abc");
            assert_eq!(count, 2);
            assert_eq!(ids, "mx-abc123, mx-abc456");
        }
        other => panic!("unexpected: {:?}", other.map(|r| r.0)),
    }
    let (i, record) = resolve_record_id(&records, "abc123").unwrap();
    assert_eq!(i, 1);
    assert_eq!(record.id(), Some("mx-abc123"));
    let (i, record) = resolve_record_id(&records, "mx-abc123").unwrap();
    assert_eq!(i, 1);
    assert_eq!(record.id(), Some("mx-abc123"));
    assert_eq!(resolve_record_id(&records, "mx-abc4").unwrap().0, 2);
    match resolve_record_id(&records, "xyz") {
        Err(MulchError::RecordNotFound(id)) => assert_eq!(id, "xyz"),
        other => panic!("unexpected: {:?}", other.map(|r| r.0)),
    }
    assert!(matches!(
        resolve_record_id(&[], "abc"),
        Err(MulchError::RecordNotFound(_))
    ));
}

#[test]
fn exact_id_wins_over_longer_ids() {
    let records = vec![record_with_id("mx-abc1234"), record_with_id("mx-abc123")];
    assert_eq!(resolve_record_id(&records, "abc123").unwrap().0, 1);
    assert!(matches!(
        resolve_record_id(&records, "abc12"),
        Err(MulchError::AmbiguousId { count: 2, .. })
    ));
    assert!(matches!(
        resolve_record_id(&records, ""),
        Err(MulchError::AmbiguousId { count: 2, .. })
    ));
    assert!(matches!(
        resolve_record_id(&records, "mx"),
        Err(MulchError::RecordNotFound(_))
    ));
}
