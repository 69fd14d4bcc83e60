use patentrag::search::{
    clamp_top_k, collect_results, default_top_k, nearest_query, SearchResult, StoredRow,
};

fn row(patent: &str, chunk: &str, text: &str, distance: Option<f64>) -> StoredRow {
    StoredRow {
        patent_id: patent.to_string(),
        chunk_id: chunk.to_string(),
        text: text.to_string(),
        distance_bits: distance.map(|d| d.to_bits()),
    }
}

fn hit(patent: &str, chunk: &str, text: &str, distance: f64) -> SearchResult {
    SearchResult {
        patent_id: patent.to_string(),
        chunk_id: chunk.to_string(),
        snippet: text.to_string(),
        distance_bits: distance.to_bits(),
    }
}

#[test]
fn default_count_is_five() {
    assert_eq!(default_top_k(), 5);
}

#[test]
fn count_is_clamped_to_one() {
    assert_eq!(clamp_top_k(0), 1);
    assert_eq!(clamp_top_k(-3), 1);
    assert_eq!(clamp_top_k(i64::MIN), 1);
    assert_eq!(clamp_top_k(1), 1);
    assert_eq!(clamp_top_k(5), 5);
    assert_eq!(clamp_top_k(i64::MAX), i64::MAX);
}

#[test]
fn store_query_carries_vector_and_clamped_limit() {
    let q = nearest_query(vec![1, 2, 3], 0);
    assert_eq!(q.vector, vec![1, 2, 3]);
    assert_eq!(q.limit, 1);
    let q = nearest_query(vec![], 7);
    assert_eq!(q.limit, 7);
}

#[test]
fn results_keep_the_order_of_the_rows() {
    let rows = vec![
        row("p1", "p1-0", "alpha", Some(0.0)),
        row("p2", "p2-3", "beta", Some(0.25)),
        row("p1", "p1-1", "gamma", Some(0.5)),
    ];
    let results = collect_results(&rows, 5);
    assert_eq!(
        results,
        vec![
            hit("p1", "p1-0", "alpha", 0.0),
            hit("p2", "p2-3", "beta", 0.25),
            hit("p1", "p1-1", "gamma", 0.5),
        ]
    );
}

#[test]
fn results_are_cut_at_the_count() {
    let rows = vec![
        row("p1", "p1-0", "alpha", Some(0.1)),
        row("p2", "p2-3", "beta", Some(0.2)),
        row("p1", "p1-1", "gamma", Some(0.3)),
    ];
    let results = collect_results(&rows, 2);
    assert_eq!(results, vec![hit("p1", "p1-0", "alpha", 0.1), hit("p2", "p2-3", "beta", 0.2)]);
}

#[test]
fn rows_without_embedding_never_appear() {
    let rows = vec![
        row("p9", "p9-0", "the query text itself", None),
        row("p1", "p1-0", "alpha", Some(0.4)),
        row("p9", "p9-1", "more", None),
        row("p2", "p2-0", "beta", Some(0.6)),
    ];
    let results = collect_results(&rows, 3);
    assert_eq!(results, vec![hit("p1", "p1-0", "alpha", 0.4), hit("p2", "p2-0", "beta", 0.6)]);
    let none = vec![row("p9", "p9-0", "x", None)];
    assert!(collect_results(&none, 5).is_empty());
}

#[test]
fn zero_or_negative_count_still_returns_one_result() {
    let rows = vec![
        row("p1", "p1-0", "alpha", Some(0.1)),
        row("p2", "p2-3", "beta", Some(0.2)),
    ];
    assert_eq!(collect_results(&rows, 0), vec![hit("p1", "p1-0", "alpha", 0.1)]);
    assert_eq!(collect_results(&rows, -10), vec![hit("p1", "p1-0", "alpha", 0.1)]);
}

#[test]
fn same_rows_same_results() {
    let rows = vec![
        row("p1", "p1-0", "alpha", Some(0.1)),
        row("p3", "p3-0", "pending", None),
        row("p2", "p2-3", "beta", Some(0.1)),
        row("p2", "p2-4", "gamma", Some(0.7)),
    ];
    let a = collect_results(&rows, 3);
    let b = collect_results(&rows, 3);
    assert_eq!(a, b);
    assert_eq!(a.len(), 3);
    assert!(a.windows(2).all(|w| w[0].distance_bits <= w[1].distance_bits));
}

#[test]
fn no_rows_no_results() {
    assert!(collect_results(&Vec::new(), 5).is_empty());
}

#[test]
fn distance_bits_order_as_distances() {
    let ds = [0.0f64, 1e-9, 0.25, 0.5, 1.0, 3.5, 1e12, f64::INFINITY];
    for w in ds.windows(2) {
        assert!(w[0].to_bits() < w[1].to_bits());
    }
}
