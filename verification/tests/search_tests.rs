use mulch_core::search::{
    document_frequency, extract_record_text, prepare_search, rank_scores, term_frequency,
    tokenize, SearchPlan,
};
use mulch_core::text::split_words;
use mulch_core::types::{Classification, ExpertiseRecord};

fn convention(content: &str) -> ExpertiseRecord {
    ExpertiseRecord::Convention {
        id: None,
        content: content.to_string(),
        classification: Classification::Foundational,
        recorded_at: "2024-01-01T00:00:00.000Z".to_string(),
        evidence: None,
        tags: None,
        relates_to: None,
        supersedes: None,
        outcomes: None,
    }
}

fn pattern(name: &str, desc: &str) -> ExpertiseRecord {
    ExpertiseRecord::Pattern {
        id: None,
        name: name.to_string(),
        description: desc.to_string(),
        files: None,
        classification: Classification::Tactical,
        recorded_at: "2024-01-01T00:00:00.000Z".to_string(),
        evidence: None,
        tags: None,
        relates_to: None,
        supersedes: None,
        outcomes: None,
    }
}

fn relevance(plan: &SearchPlan, k1: f64, b: f64) -> Vec<f64> {
    let n = plan.documents.len() as f64;
    let total: usize = plan.documents.iter().map(|d| d.length).sum();
    let average = total as f64 / n;
    plan.documents
        .iter()
        .map(|doc| {
            let mut score = 0.0;
            for (j, tf) in doc.term_counts.iter().enumerate() {
                let df = plan.document_counts[j] as f64;
                let idf = if df > 0.0 { ((n - df + 0.5) / (df + 0.5) + 1.0).ln() } else { 0.0 };
                let tf = *tf as f64;
                let norm = tf + k1 * (1.0 - b + b * (doc.length as f64 / average));
                score += idf * (tf * (k1 + 1.0) / norm);
            }
            score
        })
        .collect()
}

fn score_key(score: f64) -> u64 {
    if score > 0.0 {
        score.to_bits()
    } else {
        0
    }
}

fn search(records: &[ExpertiseRecord], query: &str) -> Vec<(usize, f64)> {
    match prepare_search(records, query) {
        None => Vec::new(),
        Some(plan) => {
            let scores = relevance(&plan, 1.5, 0.75);
            let keys: Vec<u64> = scores.iter().map(|s| score_key(*s)).collect();
            rank_scores(&keys).into_iter().map(|i| (i, scores[i])).collect()
        }
    }
}

#[test]
fn tokenize_basic() {
    let tokens = tokenize("Hello, World! foo-bar");
    assert_eq!(tokens, vec!["hello", "world", "foo-bar"]);
}

#[test]
fn empty_query_returns_empty() {
    let records = vec![convention("test")];
    let results = search(&records, "");
    assert!(results.is_empty());
}

#[test]
fn empty_records_returns_empty() {
    let results = search(&[], "test");
    assert!(results.is_empty());
}

#[test]
fn finds_matching_records() {
    let records = vec![
        convention("Always use snake_case for variables"),
        convention("Write tests for all new features"),
        pattern("Error Handling", "Use Result type for error handling in Rust"),
    ];
    let results = search(&records, "error handling");
    assert!(!results.is_empty());
    assert!(results[0].1 > 0.0);
}

#[test]
fn results_sorted_by_score() {
    let records = vec![
        convention("unrelated content here"),
        convention("error error error handling"),
        convention("some error handling approach"),
    ];
    let results = search(&records, "error handling");
    for window in results.windows(2) {
        assert!(window[0].1 >= window[1].1);
    }
}

#[test]
fn relevance_grows_with_matching_terms() {
    let records = vec![
        convention("unrelated content"),
        convention("error error error handling"),
        convention("some error handling approach"),
    ];
    let plan = prepare_search(&records, "error handling").unwrap();
    assert_eq!(plan.query_tokens, vec!["error", "handling"]);
    assert_eq!(plan.document_counts, vec![2, 2]);
    assert_eq!(plan.documents[0].term_counts, vec![0, 0]);
    assert_eq!(plan.documents[1].term_counts, vec![3, 1]);
    assert_eq!(plan.documents[2].term_counts, vec![1, 1]);
    assert_eq!(plan.documents[0].length, 2);
    assert_eq!(plan.documents[1].length, 4);
    assert_eq!(plan.documents[2].length, 4);
    let scores = relevance(&plan, 1.5, 0.75);
    assert_eq!(scores[0], 0.0);
    assert!(scores[1] >= scores[2]);
    assert!(scores[2] > 0.0);
    let ranked: Vec<usize> = search(&records, "error handling").into_iter().map(|r| r.0).collect();
    assert_eq!(ranked, vec![1, 2]);
}

#[test]
fn tokenize_edges() {
    assert!(tokenize("").is_empty());
    assert!(tokenize("  \t\n ").is_empty());
    assert!(tokenize("!!! ... ???").is_empty());
    assert_eq!(tokenize("snake_case"), vec!["snake_case"]);
    assert_eq!(tokenize("a.b/c"), vec!["a", "b", "c"]);
    assert_eq!(tokenize("  Leading AND trailing  "), vec!["leading", "and", "trailing"]);
    assert_eq!(tokenize("\u{c9}COLE caf\u{e9}"), vec!["\u{e9}cole", "caf\u{e9}"]);
    assert_eq!(tokenize("x\u{a0}y\u{3000}z"), vec!["x", "y", "z"]);
    assert_eq!(tokenize("R2-D2 is 42"), vec!["r2-d2", "is", "42"]);
}

#[test]
fn split_words_at_white_space() {
    let chars: Vec<char> = " ab  c\td ".chars().collect();
    assert_eq!(split_words(&chars), vec!["ab", "c", "d"]);
    assert!(split_words(&[]).is_empty());
    assert_eq!(split_words(&['x']), vec!["x"]);
}

#[test]
fn counts_of_terms() {
    let doc = tokenize("error error error handling");
    assert_eq!(term_frequency(&doc, "error"), 3);
    assert_eq!(term_frequency(&doc, "handling"), 1);
    assert_eq!(term_frequency(&doc, "err"), 0);
    let corpus = vec![doc, tokenize("unrelated"), tokenize("an error")];
    assert_eq!(document_frequency(&corpus, "error"), 2);
    assert_eq!(document_frequency(&corpus, "unrelated"), 1);
    assert_eq!(document_frequency(&corpus, "missing"), 0);
    assert_eq!(document_frequency(&[], "error"), 0);
}

#[test]
fn record_text_by_kind() {
    let text = extract_record_text(&pattern("Error Handling", "Use Result"));
    assert_eq!(text.document, "Error Handling Use Result");
    let names: Vec<&str> = text.fields.iter().map(|f| f.name.as_str()).collect();
    assert_eq!(names, vec!["name", "description"]);

    let full = ExpertiseRecord::Reference {
        id: None,
        name: "Docs".to_string(),
        description: "   ".to_string(),
        files: Some(vec!["a.rs".to_string(), "b.rs".to_string()]),
        classification: Classification::Tactical,
        recorded_at: "2024-01-01T00:00:00.000Z".to_string(),
        evidence: None,
        tags: Some(vec!["x".to_string(), "y".to_string()]),
        relates_to: None,
        supersedes: None,
        outcomes: None,
    };
    let text = extract_record_text(&full);
    assert_eq!(text.document, "Docs a.rs b.rs x y");
    let fields: Vec<(&str, &str)> =
        text.fields.iter().map(|f| (f.name.as_str(), f.text.as_str())).collect();
    assert_eq!(fields, vec![("name", "Docs"), ("files", "a.rs b.rs"), ("tags", "x y")]);

    let failure = ExpertiseRecord::Failure {
        id: None,
        description: "It broke".to_string(),
        resolution: "Fixed it".to_string(),
        classification: Classification::Tactical,
        recorded_at: "2024-01-01T00:00:00.000Z".to_string(),
        evidence: None,
        tags: Some(vec![]),
        relates_to: None,
        supersedes: None,
        outcomes: None,
    };
    let text = extract_record_text(&failure);
    assert_eq!(text.document, "It broke Fixed it");
    assert_eq!(text.fields.len(), 2);

    let decision = ExpertiseRecord::Decision {
        id: None,
        title: "Use Rust".to_string(),
        rationale: "Speed".to_string(),
        date: None,
        classification: Classification::Tactical,
        recorded_at: "2024-01-01T00:00:00.000Z".to_string(),
        evidence: None,
        tags: None,
        relates_to: None,
        supersedes: None,
        outcomes: None,
    };
    let text = extract_record_text(&decision);
    assert_eq!(text.document, "Use Rust Speed");
    let names: Vec<&str> = text.fields.iter().map(|f| f.name.as_str()).collect();
    assert_eq!(names, vec!["title", "rationale"]);
    assert_eq!(extract_record_text(&convention("  ")).document, "");
}

#[test]
fn matched_fields_are_named() {
    let records = vec![pattern("Error Handling", "Use the Result type"), convention("nothing")];
    let plan = prepare_search(&records, "result ERROR").unwrap();
    assert_eq!(plan.documents[0].matched_fields, vec!["name", "description"]);
    assert!(plan.documents[1].matched_fields.is_empty());
    let plan = prepare_search(&records, "type").unwrap();
    assert_eq!(plan.documents[0].matched_fields, vec!["description"]);
    assert!(prepare_search(&records, "?!").is_none());
    assert!(prepare_search(&[], "type").is_none());
}

#[test]
fn ranking_is_stable_and_drops_zero() {
    assert_eq!(rank_scores(&[5, 0, 7, 5, 0, 7]), vec![2, 5, 0, 3]);
    assert!(rank_scores(&[0, 0]).is_empty());
    assert!(rank_scores(&[]).is_empty());
    assert_eq!(rank_scores(&[u64::MAX, 1]), vec![0, 1]);
}
