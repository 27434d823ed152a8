use mulch_core::id::{generate_record_id, hex_encode};
use mulch_core::types::{Classification, ExpertiseRecord};

fn convention(content: &str, classification: Classification, recorded_at: &str) -> ExpertiseRecord {
    ExpertiseRecord::Convention {
        id: None,
        content: content.to_string(),
        classification,
        recorded_at: recorded_at.to_string(),
        evidence: None,
        tags: None,
        relates_to: None,
        supersedes: None,
        outcomes: None,
    }
}

#[test]
fn convention_id_is_deterministic() {
    let record = ExpertiseRecord::Convention {
        id: None,
        content: "Always use snake_case".to_string(),
        classification: Classification::Foundational,
        recorded_at: "2024-01-01T00:00:00.000Z".to_string(),
        evidence: None,
        tags: None,
        relates_to: None,
        supersedes: None,
        outcomes: None,
    };
    let id1 = generate_record_id(&record);
    let id2 = generate_record_id(&record);
    assert_eq!(id1, id2);
    assert!(id1.starts_with("mx-"));
    assert_eq!(id1.len(), 9); // "mx-" + 6 hex chars
}

#[test]
fn different_records_different_ids() {
    let r1 = ExpertiseRecord::Convention {
        id: None,
        content: "Use snake_case".to_string(),
        classification: Classification::Foundational,
        recorded_at: "2024-01-01T00:00:00.000Z".to_string(),
        evidence: None,
        tags: None,
        relates_to: None,
        supersedes: None,
        outcomes: None,
    };
    let r2 = ExpertiseRecord::Convention {
        id: None,
        content: "Use camelCase".to_string(),
        classification: Classification::Foundational,
        recorded_at: "2024-01-01T00:00:00.000Z".to_string(),
        evidence: None,
        tags: None,
        relates_to: None,
        supersedes: None,
        outcomes: None,
    };
    assert_ne!(generate_record_id(&r1), generate_record_id(&r2));
}

#[test]
fn ids_are_the_known_digests() {
    let r = convention("Always use snake_case", Classification::Foundational, "2024-01-01T00:00:00Z");
    assert_eq!(generate_record_id(&r), "mx-d982a0");
    let r = convention("Use snake_case", Classification::Foundational, "2024-01-01T00:00:00Z");
    assert_eq!(generate_record_id(&r), "mx-81d5b6");
    let pattern = ExpertiseRecord::Pattern {
        id: Some("mx-zzzzzz".to_string()),
        name: "Error Handling".to_string(),
        description: "whatever".to_string(),
        files: None,
        classification: Classification::Tactical,
        recorded_at: "2024-01-01T00:00:00.000Z".to_string(),
        evidence: None,
        tags: None,
        relates_to: None,
        supersedes: None,
        outcomes: None,
    };
    assert_eq!(generate_record_id(&pattern), "mx-5cc2fa");
    let failure = ExpertiseRecord::Failure {
        id: None,
        description: "\u{e9} \u{fc}".to_string(),
        resolution: "r".to_string(),
        classification: Classification::Tactical,
        recorded_at: "2024-01-01T00:00:00.000Z".to_string(),
        evidence: None,
        tags: None,
        relates_to: None,
        supersedes: None,
        outcomes: None,
    };
    assert_eq!(generate_record_id(&failure), "mx-764013");
    let decision = ExpertiseRecord::Decision {
        id: None,
        title: "".to_string(),
        rationale: "r".to_string(),
        date: None,
        classification: Classification::Tactical,
        recorded_at: "2024-01-01T00:00:00.000Z".to_string(),
        evidence: None,
        tags: None,
        relates_to: None,
        supersedes: None,
        outcomes: None,
    };
    assert_eq!(generate_record_id(&decision), "mx-c4a611");
}

#[test]
fn id_depends_on_kind_and_key_alone() {
    let a = convention("same", Classification::Foundational, "2020-01-01T00:00:00Z");
    let mut b = convention("same", Classification::Observational, "2024-06-01T00:00:00Z");
    b.set_tags(Some(vec!["t".to_string()]));
    b.set_id("mx-other".to_string());
    assert_eq!(generate_record_id(&a), generate_record_id(&b));
    let guide = ExpertiseRecord::Guide {
        id: None,
        name: "same".to_string(),
        description: "d".to_string(),
        classification: Classification::Foundational,
        recorded_at: "2020-01-01T00:00:00Z".to_string(),
        evidence: None,
        tags: None,
        relates_to: None,
        supersedes: None,
        outcomes: None,
    };
    assert_ne!(generate_record_id(&a), generate_record_id(&guide));
}

#[test]
fn ids_collide_where_the_digests_do() {
    let a = convention("note 6981", Classification::Foundational, "2020-01-01T00:00:00Z");
    let b = convention("note 9743", Classification::Foundational, "2020-01-01T00:00:00Z");
    assert_eq!(generate_record_id(&a), "mx-f9ea03");
    assert_eq!(generate_record_id(&b), "mx-f9ea03");
}

#[test]
fn hex_of_bytes() {
    assert_eq!(hex_encode(&[0x00, 0x0f, 0xa0, 0xff]), "000fa0ff");
    assert_eq!(hex_encode(&[0x12]), "12");
    assert_eq!(hex_encode(&[]), "");
}
