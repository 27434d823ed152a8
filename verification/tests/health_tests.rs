use mulch_core::health::{calculate_domain_health, is_record_stale};
use mulch_core::types::{Classification, ExpertiseRecord, ShelfLife};

const DAY: i64 = 86_400_000;
// 2024-01-01T00:00:00Z
const START: i64 = 1_704_067_200_000;

fn record(classification: Classification, recorded_at: &str) -> ExpertiseRecord {
    ExpertiseRecord::Convention {
        id: None,
        content: "c".to_string(),
        classification,
        recorded_at: recorded_at.to_string(),
        evidence: None,
        tags: None,
        relates_to: None,
        supersedes: None,
        outcomes: None,
    }
}

fn guide(recorded_at: &str) -> ExpertiseRecord {
    ExpertiseRecord::Guide {
        id: None,
        name: "g".to_string(),
        description: "d".to_string(),
        classification: Classification::Observational,
        recorded_at: recorded_at.to_string(),
        evidence: None,
        tags: None,
        relates_to: None,
        supersedes: None,
        outcomes: None,
    }
}

#[test]
fn staleness_by_tier_and_age() {
    let shelf = ShelfLife { tactical: 14, observational: 30 };
    let tactical = record(Classification::Tactical, "2024-01-01T00:00:00.000Z");
    assert!(!is_record_stale(&tactical, START, &shelf));
    assert!(!is_record_stale(&tactical, START + 14 * DAY, &shelf));
    assert!(!is_record_stale(&tactical, START + 15 * DAY - 1, &shelf));
    assert!(is_record_stale(&tactical, START + 15 * DAY, &shelf));
    assert!(!is_record_stale(&tactical, START - 100 * DAY, &shelf));
    let observational = record(Classification::Observational, "2024-01-01T00:00:00.000Z");
    assert!(!is_record_stale(&observational, START + 15 * DAY, &shelf));
    assert!(!is_record_stale(&observational, START + 31 * DAY - 1, &shelf));
    assert!(is_record_stale(&observational, START + 31 * DAY, &shelf));
    let foundational = record(Classification::Foundational, "2024-01-01T00:00:00.000Z");
    assert!(!is_record_stale(&foundational, START + 10_000 * DAY, &shelf));
    let unreadable = record(Classification::Tactical, "last week");
    assert!(!is_record_stale(&unreadable, START + 10_000 * DAY, &shelf));
    let offset = record(Classification::Tactical, "2024-01-01T02:00:00+02:00");
    assert!(is_record_stale(&offset, START + 15 * DAY, &shelf));
    assert!(!is_record_stale(&offset, START + 15 * DAY - 1, &shelf));
    let zero = ShelfLife { tactical: 0, observational: 0 };
    assert!(!is_record_stale(&tactical, START + DAY - 1, &zero));
    assert!(is_record_stale(&tactical, START + DAY, &zero));
}

#[test]
fn health_of_a_domain() {
    let shelf = ShelfLife { tactical: 14, observational: 30 };
    let records = vec![
        record(Classification::Tactical, "2024-01-05T00:00:00.000Z"),
        record(Classification::Foundational, "2023-12-31T00:00:00.000Z"),
        guide("2024-02-01T00:00:00.000Z"),
        record(Classification::Tactical, "2024-02-10T00:00:00.000Z"),
    ];
    let now = START + 45 * DAY; // 2024-02-15
    let health = calculate_domain_health(&records, 100, &shelf, now);
    assert_eq!(health.governance_utilization, 4);
    assert_eq!(health.stale_count, 1);
    assert_eq!(health.type_distribution.convention, 3);
    assert_eq!(health.type_distribution.guide, 1);
    assert_eq!(health.type_distribution.pattern, 0);
    assert_eq!(health.type_distribution.failure, 0);
    assert_eq!(health.type_distribution.decision, 0);
    assert_eq!(health.type_distribution.reference, 0);
    assert_eq!(health.classification_distribution.foundational, 1);
    assert_eq!(health.classification_distribution.tactical, 2);
    assert_eq!(health.classification_distribution.observational, 1);
    assert_eq!(health.oldest_timestamp.as_deref(), Some("2023-12-31T00:00:00.000Z"));
    assert_eq!(health.newest_timestamp.as_deref(), Some("2024-02-10T00:00:00.000Z"));
}

#[test]
fn health_of_an_empty_domain() {
    let shelf = ShelfLife { tactical: 14, observational: 30 };
    let health = calculate_domain_health(&[], 100, &shelf, START);
    assert_eq!(health.governance_utilization, 0);
    assert_eq!(health.stale_count, 0);
    assert_eq!(health.type_distribution.convention, 0);
    assert!(health.oldest_timestamp.is_none());
    assert!(health.newest_timestamp.is_none());
}

#[test]
fn utilization_is_rounded() {
    let shelf = ShelfLife { tactical: 14, observational: 30 };
    let one = vec![record(Classification::Foundational, "2024-01-01T00:00:00.000Z")];
    let three: Vec<ExpertiseRecord> =
        (0..3).map(|_| record(Classification::Foundational, "2024-01-01T00:00:00.000Z")).collect();
    assert_eq!(calculate_domain_health(&one, 0, &shelf, START).governance_utilization, 0);
    assert_eq!(calculate_domain_health(&one, 1, &shelf, START).governance_utilization, 100);
    assert_eq!(calculate_domain_health(&one, 3, &shelf, START).governance_utilization, 33);
    assert_eq!(calculate_domain_health(&one, 200, &shelf, START).governance_utilization, 1);
    assert_eq!(calculate_domain_health(&one, 201, &shelf, START).governance_utilization, 0);
    assert_eq!(calculate_domain_health(&three, 2, &shelf, START).governance_utilization, 150);
    assert_eq!(calculate_domain_health(&three, 7, &shelf, START).governance_utilization, 43);
    assert_eq!(calculate_domain_health(&three, 8, &shelf, START).governance_utilization, 38);
}
