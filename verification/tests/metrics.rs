use concurrency::{AmapMetrics, CmapMetrics, Error, Metrics};

#[test]
fn metrics_count_from_nothing() {
    let mut m = Metrics::new();
    assert_eq!(m.get("a"), None);
    assert_eq!(m.inc("a"), Ok(()));
    assert_eq!(m.get("a"), Some(1));
    assert_eq!(m.inc("a"), Ok(()));
    assert_eq!(m.inc("b"), Ok(()));
    assert_eq!(m.get("a"), Some(2));
    assert_eq!(m.get("b"), Some(1));
    assert_eq!(m.get("c"), None);
}

#[test]
fn metrics_default_is_empty() {
    let m = Metrics::default();
    assert_eq!(m.to_string(), "");
    assert_eq!(m.snapshot().ok().map(|s| s.len()), Some(0));
}

#[test]
fn metrics_snapshot_is_a_copy() {
    let mut m = Metrics::new();
    m.inc("req.page.1").unwrap();
    m.inc("req.page.2").unwrap();
    m.inc("req.page.1").unwrap();
    let snap = m.snapshot().ok().unwrap();
    m.inc("req.page.1").unwrap();
    assert_eq!(snap.len(), 2);
    assert_eq!(snap.get("req.page.1"), Some(&2));
    assert_eq!(snap.get("req.page.2"), Some(&1));
    assert_eq!(snap.get("req.page.3"), None);
    assert_eq!(m.get("req.page.1"), Some(3));
}

#[test]
fn metrics_entries_come_in_the_order_of_first_bump() {
    let mut m = Metrics::new();
    m.inc("z").unwrap();
    m.inc("a").unwrap();
    m.inc("z").unwrap();
    m.inc("m").unwrap();
    assert_eq!(
        m.entries(),
        vec![("z".to_string(), 2), ("a".to_string(), 1), ("m".to_string(), 1)]
    );
}

#[test]
fn metrics_report_has_a_line_for_each_counter() {
    let mut m = Metrics::new();
    m.inc("call.thread.worker.0").unwrap();
    m.inc("req.page.1").unwrap();
    m.inc("call.thread.worker.0").unwrap();
    assert_eq!(m.to_string(), "call.thread.worker.0: 2\nreq.page.1: 1\n");
}

#[test]
fn amap_has_the_names_it_was_made_with() {
    let m = AmapMetrics::new(&["a", "b", "a"]);
    assert_eq!(m.get("a"), Some(0));
    assert_eq!(m.get("b"), Some(0));
    assert_eq!(m.get("c"), None);
    assert_eq!(m.to_string(), "a: 0\nb: 0\n");
}

#[test]
fn amap_counts_known_names_only() {
    let mut m = AmapMetrics::new(&["call.thread.worker.0", "req.page.1"]);
    assert_eq!(m.inc("req.page.1"), Ok(()));
    assert_eq!(m.inc("req.page.1"), Ok(()));
    assert_eq!(m.inc("req.page.9"), Err(Error::KeyNotFound));
    assert_eq!(m.get("req.page.1"), Some(2));
    assert_eq!(m.get("call.thread.worker.0"), Some(0));
    assert_eq!(m.get("req.page.9"), None);
    assert_eq!(m.to_string(), "call.thread.worker.0: 0\nreq.page.1: 2\n");
}

#[test]
fn amap_without_names_refuses_everything() {
    let mut m = AmapMetrics::new(&[]);
    assert_eq!(m.inc("x"), Err(Error::KeyNotFound));
    assert_eq!(m.to_string(), "");
}

#[test]
fn cmap_counts_from_nothing() {
    let mut m = CmapMetrics::new();
    assert_eq!(m.get("a"), None);
    assert_eq!(m.inc("a"), Ok(()));
    assert_eq!(m.inc("a"), Ok(()));
    assert_eq!(m.inc("b"), Ok(()));
    assert_eq!(m.get("a"), Some(2));
    assert_eq!(m.get("b"), Some(1));
    assert_eq!(m.get("c"), None);
}

#[test]
fn cmap_report_has_a_line_for_each_counter() {
    let mut m = CmapMetrics::default();
    assert_eq!(m.to_string(), "");
    m.inc("x").unwrap();
    m.inc("y").unwrap();
    m.inc("x").unwrap();
    let text = m.to_string();
    let mut lines: Vec<&str> = text.lines().collect();
    lines.sort();
    assert_eq!(lines, vec!["x: 2", "y: 1"]);
    assert!(text.ends_with('\n'));
}
