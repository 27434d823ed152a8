use mulch_core::codec::{encode_record, read_record};
use mulch_core::storage::{record_lines, render_lines, JsonMember, JsonValue};
use mulch_core::types::{Classification, ExpertiseRecord, RecordType};

fn from_text(value: serde_json::Value) -> JsonValue {
    match value {
        serde_json::Value::Null => JsonValue::Null,
        serde_json::Value::Bool(b) => JsonValue::Bool(b),
        serde_json::Value::Number(n) => JsonValue::Number(n.to_string()),
        serde_json::Value::String(s) => JsonValue::Text(s),
        serde_json::Value::Array(items) => JsonValue::Array(items.into_iter().map(from_text).collect()),
        serde_json::Value::Object(members) => JsonValue::Object(
            members
                .into_iter()
                .map(|(key, value)| JsonMember { key, value: from_text(value) })
                .collect(),
        ),
    }
}

fn to_text(value: JsonValue) -> serde_json::Value {
    match value {
        JsonValue::Null => serde_json::Value::Null,
        JsonValue::Bool(b) => serde_json::Value::Bool(b),
        JsonValue::Number(n) => serde_json::Value::Number(n.parse().unwrap()),
        JsonValue::Text(s) => serde_json::Value::String(s),
        JsonValue::Array(items) => serde_json::Value::Array(items.into_iter().map(to_text).collect()),
        JsonValue::Object(members) => serde_json::Value::Object(
            members.into_iter().map(|m| (m.key, to_text(m.value))).collect(),
        ),
    }
}

fn read_line(line: &str) -> ExpertiseRecord {
    read_record(from_text(serde_json::from_str(line).unwrap())).unwrap()
}

fn write_line(record: &ExpertiseRecord) -> String {
    serde_json::to_string(&to_text(encode_record(record))).unwrap()
}

#[test]
fn convention_round_trip() {
    let json = r#"{"type":"convention","content":"Always use snake_case","classification":"foundational","recorded_at":"2024-01-01T00:00:00.000Z"}"#;
    let record = read_line(json);
    assert_eq!(record.record_type(), RecordType::Convention);
    assert_eq!(record.classification(), Classification::Foundational);

    let serialized = write_line(&record);
    let re_parsed = read_line(&serialized);
    assert_eq!(re_parsed.record_type(), RecordType::Convention);
}

#[test]
fn pattern_with_all_fields() {
    let json = r#"{"type":"pattern","id":"mx-abc123","name":"Error Handling","description":"Always wrap in try/catch","files":["src/utils.ts"],"classification":"tactical","recorded_at":"2024-01-01T00:00:00.000Z","tags":["rust","error"],"outcomes":[{"status":"success","agent":"builder"}]}"#;
    let record = read_line(json);
    assert_eq!(record.id(), Some("mx-abc123"));
    assert_eq!(record.record_type(), RecordType::Pattern);
    assert!(record.is_named_type());
    assert_eq!(record.tags().unwrap().len(), 2);
    assert_eq!(record.outcomes().unwrap().len(), 1);
}

#[test]
fn legacy_outcome_migration() {
    // Legacy format with singular "outcome" field
    let legacy = r#"{"type":"convention","content":"test","classification":"tactical","recorded_at":"2024-01-01T00:00:00.000Z","outcome":{"status":"success"}}"#;
    let content = format!("{legacy}\n");

    let records: Vec<ExpertiseRecord> = record_lines(&content).iter().map(|l| read_line(l)).collect();
    assert_eq!(records.len(), 1);
    assert_eq!(records[0].outcomes().unwrap().len(), 1);
}

#[test]
fn legacy_line_reads_like_the_direct_one() {
    let legacy = r#"{"type":"convention","content":"test","classification":"tactical","recorded_at":"2024-01-01T00:00:00.000Z","outcome":{"status":"partial","duration":2.5,"notes":"n"}}"#;
    let direct = r#"{"type":"convention","content":"test","classification":"tactical","recorded_at":"2024-01-01T00:00:00.000Z","outcomes":[{"status":"partial","duration":2.5,"notes":"n"}]}"#;
    assert_eq!(format!("{:?}", read_line(legacy)), format!("{:?}", read_line(direct)));
    assert_eq!(write_line(&read_line(legacy)), write_line(&read_line(direct)));
}

#[test]
fn a_file_of_records_reads_back_as_written() {
    let lines = [
        r#"{"type":"convention","id":"mx-000001","content":"First rule","classification":"foundational","recorded_at":"2024-01-01T00:00:00.000Z"}"#,
        r#"{"type":"failure","id":"mx-000002","description":"It broke","resolution":"Fix it","classification":"tactical","recorded_at":"2024-02-01T00:00:00.000Z","tags":["a","b"],"outcomes":[{"status":"failure","duration":1500}]}"#,
        r#"{"type":"decision","id":"mx-000003","title":"Use Rust","rationale":"Speed","date":"2024-03-01","classification":"observational","recorded_at":"2024-03-01T00:00:00.000Z","evidence":{"commit":"abc"}}"#,
    ];
    let records: Vec<ExpertiseRecord> = lines.iter().map(|l| read_line(l)).collect();
    let written: Vec<String> = records.iter().map(write_line).collect();
    let content = render_lines(&written);
    let read_back: Vec<ExpertiseRecord> =
        record_lines(&content).iter().map(|l| read_line(l)).collect();
    assert_eq!(read_back.len(), 3);
    for (a, b) in records.iter().zip(read_back.iter()) {
        assert_eq!(format!("{:?}", a), format!("{:?}", b));
    }
    let keys: Vec<&str> = read_back.iter().map(|r| r.key_text()).collect();
    assert_eq!(keys, vec!["First rule", "It broke", "Use Rust"]);
    assert_eq!(read_back[1].outcomes().unwrap()[0].duration.as_deref(), Some("1500"));
}
