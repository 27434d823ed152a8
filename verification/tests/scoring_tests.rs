use mulch_core::scoring::{
    compute_confirmation_score, get_failure_count, get_success_count, get_success_rate,
    get_total_applications, sort_by_confirmation_score, Ratio,
};
use mulch_core::types::OutcomeStatus::{Failure, Partial, Success};
use mulch_core::types::{Classification, ExpertiseRecord, Outcome, OutcomeStatus};

fn outcome(status: OutcomeStatus) -> Outcome {
    Outcome {
        status,
        duration: None,
        test_results: None,
        agent: None,
        notes: None,
        recorded_at: None,
    }
}

fn record_with_outcomes(outcomes: Vec<Outcome>) -> ExpertiseRecord {
    ExpertiseRecord::Convention {
        id: None,
        content: "test".to_string(),
        classification: Classification::Tactical,
        recorded_at: "2024-01-01T00:00:00.000Z".to_string(),
        evidence: None,
        tags: None,
        relates_to: None,
        supersedes: None,
        outcomes: Some(outcomes),
    }
}

fn named(content: &str, statuses: &[OutcomeStatus]) -> ExpertiseRecord {
    let mut r = record_with_outcomes(statuses.iter().map(|s| outcome(*s)).collect());
    if let ExpertiseRecord::Convention { content: c, .. } = &mut r {
        *c = content.to_string();
    }
    r
}

fn points(record: &ExpertiseRecord) -> f64 {
    compute_confirmation_score(record) as f64 / 2.0
}

#[test]
fn no_outcomes_score_zero() {
    let r = ExpertiseRecord::Convention {
        id: None,
        content: "test".to_string(),
        classification: Classification::Tactical,
        recorded_at: "2024-01-01T00:00:00.000Z".to_string(),
        evidence: None,
        tags: None,
        relates_to: None,
        supersedes: None,
        outcomes: None,
    };
    assert_eq!(points(&r), 0.0);
}

#[test]
fn success_and_partial() {
    let r = record_with_outcomes(vec![
        Outcome {
            status: OutcomeStatus::Success,
            duration: None,
            test_results: None,
            agent: None,
            notes: None,
            recorded_at: None,
        },
        Outcome {
            status: OutcomeStatus::Partial,
            duration: None,
            test_results: None,
            agent: None,
            notes: None,
            recorded_at: None,
        },
        Outcome {
            status: OutcomeStatus::Failure,
            duration: None,
            test_results: None,
            agent: None,
            notes: None,
            recorded_at: None,
        },
    ]);
    assert_eq!(points(&r), 1.5); // 1 + 0.5
    assert_eq!(get_success_count(&r), 1);
    assert_eq!(get_failure_count(&r), 1);
    assert_eq!(get_total_applications(&r), 3);
}

#[test]
fn score_is_counted_in_half_points() {
    assert_eq!(compute_confirmation_score(&named("a", &[Success, Partial, Failure])), 3);
    assert_eq!(compute_confirmation_score(&named("a", &[])), 0);
    assert_eq!(compute_confirmation_score(&named("a", &[Failure, Failure])), 0);
    assert_eq!(compute_confirmation_score(&named("a", &[Success, Success, Success])), 6);
    assert_eq!(compute_confirmation_score(&named("a", &[Partial])), 1);
}

#[test]
fn success_rate_is_a_fraction() {
    assert_eq!(get_success_rate(&named("a", &[])), Ratio { num: 0, den: 1 });
    assert_eq!(
        get_success_rate(&named("a", &[Success, Partial, Failure])),
        Ratio { num: 3, den: 6 }
    );
    assert_eq!(get_success_rate(&named("a", &[Success])), Ratio { num: 2, den: 2 });
    assert_eq!(get_success_rate(&named("a", &[Failure])), Ratio { num: 0, den: 2 });
    let none = ExpertiseRecord::Guide {
        id: None,
        name: "g".to_string(),
        description: "d".to_string(),
        classification: Classification::Tactical,
        recorded_at: "2024-01-01T00:00:00.000Z".to_string(),
        evidence: None,
        tags: None,
        relates_to: None,
        supersedes: None,
        outcomes: None,
    };
    assert_eq!(get_success_rate(&none), Ratio { num: 0, den: 1 });
    assert_eq!(get_total_applications(&none), 0);
    assert_eq!(get_success_count(&none), 0);
    assert_eq!(get_failure_count(&none), 0);
}

#[test]
fn sorting_by_score_is_stable() {
    let a = named("a", &[Partial]);
    let b = named("b", &[Success, Success]);
    let c = named("c", &[Failure]);
    let d = named("d", &[Success, Partial, Partial]);
    let e = named("e", &[]);
    let f = named("f", &[Partial]);
    let mut records = vec![&a, &b, &c, &d, &e, &f];
    sort_by_confirmation_score(&mut records);
    let order: Vec<&str> = records.iter().map(|r| r.key_text()).collect();
    assert_eq!(order, vec!["b", "d", "a", "f", "c", "e"]);
    let mut empty: Vec<&ExpertiseRecord> = Vec::new();
    sort_by_confirmation_score(&mut empty);
    assert!(empty.is_empty());
}
