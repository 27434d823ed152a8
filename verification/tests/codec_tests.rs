use mulch_core::codec::{decode_record, encode_record, get_member, read_record};
use mulch_core::error::MulchError;
use mulch_core::storage::{JsonMember, JsonValue};
use mulch_core::types::{
    Classification, Evidence, ExpertiseRecord, Outcome, OutcomeStatus, RecordType,
};

fn member(key: &str, value: JsonValue) -> JsonMember {
    JsonMember { key: key.to_string(), value }
}

fn text(s: &str) -> JsonValue {
    JsonValue::Text(s.to_string())
}

fn object(members: Vec<(&str, JsonValue)>) -> JsonValue {
    JsonValue::Object(members.into_iter().map(|(k, v)| member(k, v)).collect())
}

fn written(value: &JsonValue) -> String {
    match value {
        JsonValue::Null => "null".to_string(),
        JsonValue::Bool(b) => format!("{b}"),
        JsonValue::Number(n) => n.clone(),
        JsonValue::Text(s) => format!("{s:?}"),
        JsonValue::Array(items) => {
            format!("[{}]", items.iter().map(written).collect::<Vec<_>>().join(","))
        }
        JsonValue::Object(members) => format!(
            "{{{}}}",
            members
                .iter()
                .map(|m| format!("{:?}:{}", m.key, written(&m.value)))
                .collect::<Vec<_>>()
                .join(",")
        ),
    }
}

fn full_pattern() -> ExpertiseRecord {
    ExpertiseRecord::Pattern {
        id: Some("mx-abc123".to_string()),
        name: "Error Handling".to_string(),
        description: "Wrap it".to_string(),
        files: Some(vec!["src/a.rs".to_string(), "src/b.rs".to_string()]),
        classification: Classification::Tactical,
        recorded_at: "2024-01-01T00:00:00.000Z".to_string(),
        evidence: Some(Evidence {
            commit: Some("c0ffee".to_string()),
            date: None,
            issue: Some("#7".to_string()),
            file: None,
            bead: Some("b-1".to_string()),
        }),
        tags: Some(vec!["rust".to_string()]),
        relates_to: Some(vec![]),
        supersedes: None,
        outcomes: Some(vec![
            Outcome {
                status: OutcomeStatus::Success,
                duration: Some("12.5".to_string()),
                test_results: Some("ok".to_string()),
                agent: Some("bot".to_string()),
                notes: None,
                recorded_at: Some("2024-01-02T00:00:00Z".to_string()),
            },
            Outcome {
                status: OutcomeStatus::Partial,
                duration: None,
                test_results: None,
                agent: None,
                notes: Some("half".to_string()),
                recorded_at: None,
            },
        ]),
    }
}

fn bare(kind: RecordType) -> ExpertiseRecord {
    let classification = Classification::Foundational;
    let recorded_at = "2024-01-01T00:00:00.000Z".to_string();
    match kind {
        RecordType::Convention => ExpertiseRecord::Convention {
            id: None,
            content: "c".to_string(),
            classification,
            recorded_at,
            evidence: None,
            tags: None,
            relates_to: None,
            supersedes: None,
            outcomes: None,
        },
        RecordType::Pattern => ExpertiseRecord::Pattern {
            id: None,
            name: "n".to_string(),
            description: "d".to_string(),
            files: None,
            classification,
            recorded_at,
            evidence: None,
            tags: None,
            relates_to: None,
            supersedes: None,
            outcomes: None,
        },
        RecordType::Failure => ExpertiseRecord::Failure {
            id: None,
            description: "d".to_string(),
            resolution: "r".to_string(),
            classification,
            recorded_at,
            evidence: None,
            tags: None,
            relates_to: None,
            supersedes: None,
            outcomes: None,
        },
        RecordType::Decision => ExpertiseRecord::Decision {
            id: None,
            title: "t".to_string(),
            rationale: "r".to_string(),
            date: Some("2024-02-02".to_string()),
            classification,
            recorded_at,
            evidence: None,
            tags: None,
            relates_to: None,
            supersedes: None,
            outcomes: None,
        },
        RecordType::Reference => ExpertiseRecord::Reference {
            id: None,
            name: "n".to_string(),
            description: "d".to_string(),
            files: Some(vec![]),
            classification,
            recorded_at,
            evidence: None,
            tags: None,
            relates_to: None,
            supersedes: None,
            outcomes: None,
        },
        RecordType::Guide => ExpertiseRecord::Guide {
            id: None,
            name: "n".to_string(),
            description: "d".to_string(),
            classification,
            recorded_at,
            evidence: None,
            tags: None,
            relates_to: None,
            supersedes: None,
            outcomes: None,
        },
    }
}

#[test]
fn stored_form_of_a_full_record() {
    assert_eq!(
        written(&encode_record(&full_pattern())),
        "{\"type\":\"pattern\",\"id\":\"mx-abc123\",\"name\":\"Error Handling\",\"description\":\"Wrap it\",\"files\":[\"src/a.rs\",\"src/b.rs\"],\"classification\":\"tactical\",\"recorded_at\":\"2024-01-01T00:00:00.000Z\",\"evidence\":{\"commit\":\"c0ffee\",\"issue\":\"#7\",\"bead\":\"b-1\"},\"tags\":[\"rust\"],\"relates_to\":[],\"outcomes\":[{\"status\":\"success\",\"duration\":12.5,\"test_results\":\"ok\",\"agent\":\"bot\",\"recorded_at\":\"2024-01-02T00:00:00Z\"},{\"status\":\"partial\",\"notes\":\"half\"}]}"
    );
}

#[test]
fn stored_form_of_each_kind() {
    let tail = "\"classification\":\"foundational\",\"recorded_at\":\"2024-01-01T00:00:00.000Z\"}";
    let expected = [
        (RecordType::Convention, "{\"type\":\"convention\",\"content\":\"c\","),
        (RecordType::Pattern, "{\"type\":\"pattern\",\"name\":\"n\",\"description\":\"d\","),
        (RecordType::Failure, "{\"type\":\"failure\",\"description\":\"d\",\"resolution\":\"r\","),
        (
            RecordType::Decision,
            "{\"type\":\"decision\",\"title\":\"t\",\"rationale\":\"r\",\"date\":\"2024-02-02\",",
        ),
        (
            RecordType::Reference,
            "{\"type\":\"reference\",\"name\":\"n\",\"description\":\"d\",\"files\":[],",
        ),
        (RecordType::Guide, "{\"type\":\"guide\",\"name\":\"n\",\"description\":\"d\","),
    ];
    for (kind, head) in expected {
        assert_eq!(written(&encode_record(&bare(kind))), format!("{head}{tail}"));
    }
}

#[test]
fn what_is_written_is_read() {
    let mut records = vec![full_pattern()];
    for kind in [
        RecordType::Convention,
        RecordType::Pattern,
        RecordType::Failure,
        RecordType::Decision,
        RecordType::Reference,
        RecordType::Guide,
    ] {
        records.push(bare(kind));
    }
    for record in &records {
        let stored = encode_record(record);
        let read = decode_record(&stored).unwrap();
        assert_eq!(written(&encode_record(&read)), written(&stored));
        assert_eq!(format!("{:?}", read), format!("{:?}", record));
    }
}

#[test]
fn reading_ignores_order_and_unknown_members() {
    let value = object(vec![
        ("recorded_at", text("2024-01-01T00:00:00Z")),
        ("extra", JsonValue::Bool(true)),
        ("files", JsonValue::Number("3".to_string())),
        ("content", text("Use snake_case")),
        ("id", JsonValue::Null),
        ("tags", JsonValue::Null),
        ("evidence", object(vec![("commit", text("abc")), ("other", JsonValue::Null)])),
        ("classification", text("observational")),
        ("type", text("convention")),
    ]);
    let record = decode_record(&value).unwrap();
    assert_eq!(record.record_type(), RecordType::Convention);
    assert_eq!(record.key_text(), "Use snake_case");
    assert_eq!(record.id(), None);
    assert!(record.tags().is_none());
    assert_eq!(record.classification(), Classification::Observational);
    assert_eq!(record.evidence().unwrap().commit.as_deref(), Some("abc"));
    assert!(record.evidence().unwrap().date.is_none());
    assert!(record.outcomes().is_none());
    assert!(record.files().is_none());
}

#[test]
fn values_that_hold_no_record() {
    let good = || {
        vec![
            ("type", text("failure")),
            ("description", text("d")),
            ("resolution", text("r")),
            ("classification", text("tactical")),
            ("recorded_at", text("2024-01-01T00:00:00Z")),
        ]
    };
    assert!(decode_record(&object(good())).is_ok());
    let without = |key: &str| object(good().into_iter().filter(|(k, _)| *k != key).collect());
    for key in ["type", "description", "resolution", "classification", "recorded_at"] {
        match decode_record(&without(key)) {
            Err(MulchError::ValidationError(detail)) => assert_eq!(detail, "Not an expertise record"),
            other => panic!("{key}: {:?}", other),
        }
    }
    let with = |key: &'static str, value: JsonValue| {
        let mut members: Vec<(&str, JsonValue)> =
            good().into_iter().filter(|(k, _)| *k != key).collect();
        members.push((key, value));
        object(members)
    };
    assert!(decode_record(&with("type", text("note"))).is_err());
    assert!(decode_record(&with("type", JsonValue::Null)).is_err());
    assert!(decode_record(&with("classification", text("Tactical"))).is_err());
    assert!(decode_record(&with("description", JsonValue::Number("1".to_string()))).is_err());
    assert!(decode_record(&with("id", JsonValue::Bool(false))).is_err());
    assert!(decode_record(&with("tags", text("a,b"))).is_err());
    assert!(decode_record(&with("tags", JsonValue::Array(vec![JsonValue::Null]))).is_err());
    assert!(decode_record(&with("evidence", text("none"))).is_err());
    assert!(decode_record(&with("evidence", object(vec![("commit", JsonValue::Bool(true))]))).is_err());
    assert!(decode_record(&with("outcomes", object(vec![]))).is_err());
    assert!(decode_record(&with("outcomes", JsonValue::Array(vec![object(vec![])]))).is_err());
    assert!(decode_record(&with(
        "outcomes",
        JsonValue::Array(vec![object(vec![("status", text("done"))])])
    ))
    .is_err());
    assert!(decode_record(&with(
        "outcomes",
        JsonValue::Array(vec![object(vec![("status", text("success")), ("duration", text("1"))])])
    ))
    .is_err());
    assert!(decode_record(&with("outcomes", JsonValue::Array(vec![]))).is_ok());
    assert!(decode_record(&with("supersedes", JsonValue::Array(vec![text("mx-1")]))).is_ok());
    assert!(decode_record(&JsonValue::Null).is_err());
    assert!(decode_record(&JsonValue::Array(vec![])).is_err());
    assert!(decode_record(&text("convention")).is_err());
}

#[test]
fn a_single_outcome_is_read_as_a_list() {
    let base = || {
        vec![
            ("type", text("convention")),
            ("content", text("test")),
            ("classification", text("tactical")),
            ("recorded_at", text("2024-01-01T00:00:00.000Z")),
        ]
    };
    let outcome = || object(vec![("status", text("success")), ("agent", text("bot"))]);
    let mut legacy = base();
    legacy.insert(1, ("outcome", outcome()));
    let mut direct = base();
    direct.push(("outcomes", JsonValue::Array(vec![outcome()])));
    let from_legacy = read_record(object(legacy)).unwrap();
    let from_direct = read_record(object(direct)).unwrap();
    assert_eq!(from_legacy.outcomes().unwrap().len(), 1);
    assert_eq!(from_legacy.outcomes().unwrap()[0].status, OutcomeStatus::Success);
    assert_eq!(from_legacy.outcomes().unwrap()[0].agent.as_deref(), Some("bot"));
    assert_eq!(format!("{:?}", from_legacy), format!("{:?}", from_direct));
    let mut broken = base();
    broken.push(("outcome", text("success")));
    assert!(read_record(object(broken)).is_err());
}

#[test]
fn the_first_member_with_a_key_counts() {
    let members = vec![member("a", text("1")), member("b", text("2")), member("a", text("3"))];
    assert_eq!(written(get_member(&members, "a").unwrap()), "\"1\"");
    assert_eq!(written(get_member(&members, "b").unwrap()), "\"2\"");
    assert!(get_member(&members, "c").is_none());
    assert!(get_member(&Vec::new(), "a").is_none());
}
