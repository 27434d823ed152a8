use mulch_core::error::MulchError;
use mulch_core::maintain::{
    compact_survivors, find_compact_groups, positions_of_kind, stale_positions,
};
use mulch_core::types::{Classification, ExpertiseRecord, RecordType, ShelfLife};
use mulch_core::values::parse_duration;

const DAY: i64 = 86_400_000;
// 2024-01-01T00:00:00Z
const START: i64 = 1_704_067_200_000;

fn note(content: &str, classification: Classification, recorded_at: &str) -> ExpertiseRecord {
    ExpertiseRecord::Convention {
        id: None,
        content: content.to_string(),
        classification,
        recorded_at: recorded_at.to_string(),
        evidence: None,
        tags: None,
        relates_to: None,
        supersedes: None,
        outcomes: None,
    }
}

fn pattern(name: &str, recorded_at: &str) -> ExpertiseRecord {
    ExpertiseRecord::Pattern {
        id: None,
        name: name.to_string(),
        description: "d".to_string(),
        files: None,
        classification: Classification::Foundational,
        recorded_at: recorded_at.to_string(),
        evidence: None,
        tags: None,
        relates_to: None,
        supersedes: None,
        outcomes: None,
    }
}

fn guide(name: &str, recorded_at: &str) -> ExpertiseRecord {
    ExpertiseRecord::Guide {
        id: None,
        name: name.to_string(),
        description: "d".to_string(),
        classification: Classification::Observational,
        recorded_at: recorded_at.to_string(),
        evidence: None,
        tags: None,
        relates_to: None,
        supersedes: None,
        outcomes: None,
    }
}

#[test]
fn stale_positions_are_listed_ascending() {
    let shelf = ShelfLife { tactical: 14, observational: 30 };
    let records = vec![
        note("a", Classification::Tactical, "2024-01-01T00:00:00Z"),
        note("b", Classification::Foundational, "2024-01-01T00:00:00Z"),
        note("c", Classification::Observational, "2024-01-01T00:00:00Z"),
        note("d", Classification::Tactical, "2024-01-10T00:00:00Z"),
        note("e", Classification::Tactical, "some day"),
    ];
    assert_eq!(stale_positions(&records, START, &shelf), Vec::<usize>::new());
    assert_eq!(stale_positions(&records, START + 15 * DAY, &shelf), vec![0]);
    assert_eq!(stale_positions(&records, START + 24 * DAY, &shelf), vec![0, 3]);
    assert_eq!(stale_positions(&records, START + 31 * DAY, &shelf), vec![0, 2, 3]);
    assert_eq!(stale_positions(&[], START + 31 * DAY, &shelf), Vec::<usize>::new());
}

#[test]
fn the_newest_of_an_identity_survives() {
    let records = vec![
        note("a", Classification::Tactical, "2024-01-03T00:00:00Z"),
        pattern("p", "2024-01-01T00:00:00Z"),
        note("a", Classification::Tactical, "2024-01-01T00:00:00Z"),
        note("b", Classification::Tactical, "2024-01-01T00:00:00Z"),
        pattern("p", "2024-01-02T00:00:00Z"),
        guide("p", "2024-01-01T00:00:00Z"),
    ];
    assert_eq!(compact_survivors(&records), vec![0, 3, 4, 5]);
}

#[test]
fn of_records_with_one_time_the_later_survives() {
    let records = vec![
        note("a", Classification::Tactical, "2024-01-01T00:00:00Z"),
        note("a", Classification::Foundational, "2024-01-01T00:00:00Z"),
        note("a", Classification::Observational, "2024-01-01T00:00:00Z"),
    ];
    assert_eq!(compact_survivors(&records), vec![2]);
    assert_eq!(compact_survivors(&records[..1]), vec![0]);
    assert_eq!(compact_survivors(&[]), Vec::<usize>::new());
}

#[test]
fn records_of_distinct_identity_all_survive() {
    let records = vec![
        note("a", Classification::Tactical, "2024-01-01T00:00:00Z"),
        note("b", Classification::Tactical, "2024-01-02T00:00:00Z"),
        pattern("a", "2024-01-03T00:00:00Z"),
    ];
    assert_eq!(compact_survivors(&records), vec![0, 1, 2]);
}

#[test]
fn positions_of_one_kind() {
    let records = vec![
        note("a", Classification::Tactical, "t"),
        pattern("p", "t"),
        note("b", Classification::Tactical, "t"),
    ];
    assert_eq!(positions_of_kind(&records, RecordType::Convention), vec![0, 2]);
    assert_eq!(positions_of_kind(&records, RecordType::Pattern), vec![1]);
    assert_eq!(positions_of_kind(&records, RecordType::Guide), Vec::<usize>::new());
}

#[test]
fn groups_hold_the_kinds_with_several_records() {
    let records = vec![
        guide("g1", "t"),
        note("a", Classification::Tactical, "t"),
        pattern("p", "t"),
        guide("g2", "t"),
        note("b", Classification::Tactical, "t"),
        guide("g3", "t"),
    ];
    let groups = find_compact_groups(&records);
    assert_eq!(groups.len(), 2);
    assert_eq!(groups[0].kind, RecordType::Convention);
    assert_eq!(groups[0].positions, vec![1, 4]);
    assert_eq!(groups[1].kind, RecordType::Guide);
    assert_eq!(groups[1].positions, vec![0, 3, 5]);
    assert!(find_compact_groups(&records[..3]).is_empty());
    assert!(find_compact_groups(&[]).is_empty());
}

fn detail(r: Result<i64, MulchError>) -> String {
    match r {
        Err(MulchError::ValidationError(d)) => d,
        other => panic!("no validation error: {:?}", other),
    }
}

#[test]
fn durations_in_minutes() {
    assert_eq!(parse_duration("24h").unwrap(), 1440);
    assert_eq!(parse_duration("7d").unwrap(), 10080);
    assert_eq!(parse_duration("2w").unwrap(), 20160);
    assert_eq!(parse_duration("90m").unwrap(), 90);
    assert_eq!(parse_duration("  3d \n").unwrap(), 4320);
    assert_eq!(parse_duration("0h").unwrap(), 0);
    assert_eq!(parse_duration("-2h").unwrap(), -120);
    assert_eq!(parse_duration("+2h").unwrap(), 120);
    assert_eq!(parse_duration("007m").unwrap(), 7);
    assert_eq!(parse_duration("9223372036854775807m").unwrap(), i64::MAX);
    assert_eq!(parse_duration("-9223372036854775808m").unwrap(), i64::MIN);
}

#[test]
fn durations_that_are_refused() {
    assert_eq!(detail(parse_duration("")), "Empty duration string");
    assert_eq!(detail(parse_duration("   ")), "Empty duration string");
    assert_eq!(detail(parse_duration("h")), "Invalid duration number: \"\"");
    assert_eq!(detail(parse_duration("xh")), "Invalid duration number: \"x\"");
    assert_eq!(detail(parse_duration("1.5h")), "Invalid duration number: \"1.5\"");
    assert_eq!(detail(parse_duration("-h")), "Invalid duration number: \"-\"");
    assert_eq!(detail(parse_duration("12")), "Unknown duration unit \"2\". Use h (hours), d (days), w (weeks), m (minutes).");
    assert_eq!(detail(parse_duration("5y")), "Unknown duration unit \"y\". Use h (hours), d (days), w (weeks), m (minutes).");
    assert_eq!(detail(parse_duration("xy")), "Invalid duration number: \"x\"");
    assert_eq!(
        detail(parse_duration("9223372036854775808m")),
        "Invalid duration number: \"9223372036854775808\""
    );
    assert_eq!(
        detail(parse_duration("9223372036854775807h")),
        "Invalid duration number: \"9223372036854775807\""
    );
}
