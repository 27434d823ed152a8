use mulch_core::budget::{
    apply_budget, apply_budget_with_costs, classification_priority_index, estimate_tokens,
    format_budget_summary, record_sort_key, type_priority_index, BudgetResult, DomainRecords,
    DEFAULT_BUDGET,
};
use mulch_core::types::{Classification, ExpertiseRecord, Outcome, OutcomeStatus, RecordType};

fn convention_at(content: &str, classification: Classification, recorded_at: &str) -> ExpertiseRecord {
    ExpertiseRecord::Convention {
        id: None,
        content: content.to_string(),
        classification,
        recorded_at: recorded_at.to_string(),
        evidence: None,
        tags: None,
        relates_to: None,
        supersedes: None,
        outcomes: None,
    }
}

fn failure_at(description: &str, classification: Classification, recorded_at: &str) -> ExpertiseRecord {
    ExpertiseRecord::Failure {
        id: None,
        description: description.to_string(),
        resolution: "fixed".to_string(),
        classification,
        recorded_at: recorded_at.to_string(),
        evidence: None,
        tags: None,
        relates_to: None,
        supersedes: None,
        outcomes: None,
    }
}

fn success() -> Outcome {
    Outcome {
        status: OutcomeStatus::Success,
        duration: None,
        test_results: None,
        agent: None,
        notes: None,
        recorded_at: None,
    }
}

fn names_of(result: &BudgetResult) -> Vec<(String, Vec<String>)> {
    result
        .kept
        .iter()
        .map(|g| {
            (
                g.domain.clone(),
                g.records.iter().map(|r| r.key_text().to_string()).collect(),
            )
        })
        .collect()
}

#[test]
fn estimate_tokens_basic() {
    assert_eq!(estimate_tokens(""), 0);
    assert_eq!(estimate_tokens("abcd"), 1);
    assert_eq!(estimate_tokens("abcde"), 2);
    assert_eq!(estimate_tokens("abcdefgh"), 2);
}

#[test]
fn format_budget_summary_singular() {
    let s = format_budget_summary(1, 1);
    assert!(s.contains("1 more record"));
    assert!(s.contains("1 domain"));
}

#[test]
fn format_budget_summary_plural() {
    let s = format_budget_summary(5, 2);
    assert!(s.contains("5 more records"));
    assert!(s.contains("2 domains"));
}

#[test]
fn format_budget_summary_exact_text() {
    assert_eq!(
        format_budget_summary(1, 1),
        "... and 1 more record across 1 domain (use --budget <n> to show more)"
    );
    assert_eq!(
        format_budget_summary(12, 3),
        "... and 12 more records across 3 domains (use --budget <n> to show more)"
    );
    assert_eq!(
        format_budget_summary(0, 0),
        "... and 0 more records (use --budget <n> to show more)"
    );
}

#[test]
fn estimate_tokens_counts_characters() {
    assert_eq!(estimate_tokens("a"), 1);
    assert_eq!(estimate_tokens("abc"), 1);
    assert_eq!(estimate_tokens("\u{e9}\u{e9}\u{e9}\u{e9}"), 1);
    assert_eq!(estimate_tokens("\u{e9}\u{e9}\u{e9}\u{e9}\u{e9}"), 2);
    assert_eq!(DEFAULT_BUDGET, 4000);
}

#[test]
fn priority_tables() {
    let kinds = [
        RecordType::Convention,
        RecordType::Decision,
        RecordType::Pattern,
        RecordType::Guide,
        RecordType::Failure,
        RecordType::Reference,
    ];
    for (i, k) in kinds.iter().enumerate() {
        assert_eq!(type_priority_index(*k), i);
    }
    assert_eq!(classification_priority_index(Classification::Foundational), 0);
    assert_eq!(classification_priority_index(Classification::Tactical), 1);
    assert_eq!(classification_priority_index(Classification::Observational), 2);
}

#[test]
fn sort_key_reads_the_timestamp() {
    let r = convention_at("a", Classification::Tactical, "1970-01-01T00:00:01.500Z");
    let key = record_sort_key(&r);
    assert_eq!(key.first, 0);
    assert_eq!(key.second, 1);
    assert_eq!(key.third, 0);
    assert_eq!(key.fourth, -1500);
    let unreadable = convention_at("a", Classification::Tactical, "yesterday");
    assert_eq!(record_sort_key(&unreadable).fourth, i128::MAX);
}

#[test]
fn sort_key_prefers_higher_scores() {
    let mut r = convention_at("a", Classification::Tactical, "2024-01-01T00:00:00.000Z");
    r.set_outcomes(Some(vec![success(), success()]));
    assert_eq!(record_sort_key(&r).third, -4);
}

#[test]
fn budget_keeps_by_priority_and_drops_the_rest() {
    let old_convention =
        convention_at("keep me", Classification::Foundational, "2020-01-01T00:00:00.000Z");
    let new_failure = failure_at("drop me", Classification::Tactical, "2024-06-01T00:00:00.000Z");
    let groups = vec![DomainRecords {
        domain: "core".to_string(),
        records: vec![&old_convention, &new_failure],
    }];
    let text = "x".repeat(40);
    let result = apply_budget(&groups, 10, |_r: &ExpertiseRecord, _d: &str| text.clone());
    assert_eq!(result.dropped_count, 1);
    assert_eq!(result.dropped_domain_count, 1);
    assert_eq!(
        names_of(&result),
        vec![("core".to_string(), vec!["keep me".to_string()])]
    );

    let doubled = apply_budget(&groups, 20, |_r: &ExpertiseRecord, _d: &str| text.clone());
    assert_eq!(doubled.dropped_count, 0);
    assert_eq!(doubled.dropped_domain_count, 0);
    assert_eq!(
        names_of(&doubled),
        vec![(
            "core".to_string(),
            vec!["keep me".to_string(), "drop me".to_string()]
        )]
    );
}

#[test]
fn budget_stops_at_the_first_record_that_does_not_fit() {
    let a = convention_at("a", Classification::Foundational, "2024-01-01T00:00:00.000Z");
    let b = convention_at("b", Classification::Tactical, "2024-01-01T00:00:00.000Z");
    let c = convention_at("c", Classification::Observational, "2024-01-01T00:00:00.000Z");
    let groups = vec![DomainRecords {
        domain: "core".to_string(),
        records: vec![&a, &b, &c],
    }];
    let result = apply_budget_with_costs(&groups, 20, &[10, 50, 5]).unwrap();
    assert_eq!(result.dropped_count, 2);
    assert_eq!(names_of(&result), vec![("core".to_string(), vec!["a".to_string()])]);
}

#[test]
fn budget_regroups_in_the_given_order() {
    let low = failure_at("low", Classification::Observational, "2024-01-01T00:00:00.000Z");
    let high = convention_at("high", Classification::Foundational, "2024-01-01T00:00:00.000Z");
    let mid = convention_at("mid", Classification::Tactical, "2024-01-01T00:00:00.000Z");
    let other = failure_at("other", Classification::Tactical, "2024-01-01T00:00:00.000Z");
    let groups = vec![
        DomainRecords { domain: "one".to_string(), records: vec![&low, &high, &mid] },
        DomainRecords { domain: "two".to_string(), records: vec![&other] },
        DomainRecords { domain: "empty".to_string(), records: vec![] },
    ];
    // rank order: high, mid, other, low
    let all = apply_budget_with_costs(&groups, 100, &[1, 1, 1, 1]).unwrap();
    assert_eq!(all.dropped_count, 0);
    assert_eq!(all.dropped_domain_count, 0);
    assert_eq!(
        names_of(&all),
        vec![
            ("one".to_string(), vec!["low".to_string(), "high".to_string(), "mid".to_string()]),
            ("two".to_string(), vec!["other".to_string()]),
        ]
    );
    let two = apply_budget_with_costs(&groups, 2, &[1, 1, 1, 1]).unwrap();
    assert_eq!(two.dropped_count, 2);
    assert_eq!(two.dropped_domain_count, 2);
    assert_eq!(
        names_of(&two),
        vec![("one".to_string(), vec!["high".to_string(), "mid".to_string()])]
    );
    let none = apply_budget_with_costs(&groups, 0, &[1, 1, 1, 1]).unwrap();
    assert_eq!(none.dropped_count, 4);
    assert_eq!(none.dropped_domain_count, 2);
    assert!(none.kept.is_empty());
}

#[test]
fn budget_needs_a_cost_for_each_record() {
    let a = convention_at("a", Classification::Foundational, "2024-01-01T00:00:00.000Z");
    let groups = vec![DomainRecords { domain: "d".to_string(), records: vec![&a] }];
    assert!(apply_budget_with_costs(&groups, 10, &[]).is_none());
    assert!(apply_budget_with_costs(&groups, 10, &[1, 2]).is_none());
    assert!(apply_budget_with_costs(&groups, 10, &[1]).is_some());
    assert!(apply_budget_with_costs(&[], 10, &[]).is_some());
}

#[test]
fn budget_counts_a_domain_name_once() {
    let a = convention_at("a", Classification::Foundational, "2024-01-01T00:00:00.000Z");
    let b = convention_at("b", Classification::Foundational, "2024-01-01T00:00:00.000Z");
    let groups = vec![
        DomainRecords { domain: "same".to_string(), records: vec![&a] },
        DomainRecords { domain: "same".to_string(), records: vec![&b] },
    ];
    let result = apply_budget_with_costs(&groups, 0, &[3, 3]).unwrap();
    assert_eq!(result.dropped_count, 2);
    assert_eq!(result.dropped_domain_count, 1);
}

#[test]
fn budget_breaks_ties_by_score_then_age_then_position() {
    let mut confirmed = convention_at("confirmed", Classification::Tactical, "2020-01-01T00:00:00Z");
    confirmed.set_outcomes(Some(vec![success()]));
    let newer = convention_at("newer", Classification::Tactical, "2024-01-01T00:00:00Z");
    let older = convention_at("older", Classification::Tactical, "2021-01-01T00:00:00Z");
    let unreadable = convention_at("unreadable", Classification::Tactical, "not a time");
    let twin = convention_at("twin", Classification::Tactical, "2021-01-01T00:00:00Z");
    let groups = vec![DomainRecords {
        domain: "d".to_string(),
        records: vec![&unreadable, &older, &newer, &twin, &confirmed],
    }];
    let costs = [1, 1, 1, 1, 1];
    let kept = |budget: usize| -> Vec<String> {
        let result = apply_budget_with_costs(&groups, budget, &costs).unwrap();
        result.kept.iter().flat_map(|g| g.records.iter().map(|r| r.key_text().to_string())).collect()
    };
    assert_eq!(kept(1), vec!["confirmed"]);
    assert_eq!(kept(2), vec!["newer", "confirmed"]);
    assert_eq!(kept(3), vec!["older", "newer", "confirmed"]);
    assert_eq!(kept(4), vec!["older", "newer", "twin", "confirmed"]);
    assert_eq!(kept(5), vec!["unreadable", "older", "newer", "twin", "confirmed"]);
}
