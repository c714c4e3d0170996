use matmul::{AmapMetrics, MatmulError, Metrics};

#[test]
fn metrics_counts_per_key() {
    let m = Metrics::new();
    m.incr("calls".to_string()).unwrap();
    m.incr("errors".to_string()).unwrap();
    m.incr("calls".to_string()).unwrap();
    let snapshot = m.snapshot().unwrap();
    assert_eq!(snapshot, vec![("calls".to_string(), 2), ("errors".to_string(), 1)]);
}

#[test]
fn metrics_snapshot_of_empty_set_is_empty() {
    let m = Metrics::new();
    assert_eq!(m.snapshot().unwrap(), vec![]);
}

#[test]
fn metrics_snapshot_is_a_copy() {
    let m = Metrics::new();
    m.incr("a".to_string()).unwrap();
    let before = m.snapshot().unwrap();
    m.incr("a".to_string()).unwrap();
    let after = m.snapshot().unwrap();
    assert_eq!(before, vec![("a".to_string(), 1)]);
    assert_eq!(after, vec![("a".to_string(), 2)]);
}

#[test]
fn amap_counts_registered_names() {
    let m = AmapMetrics::new(&["req.page", "req.api"]);
    m.incr("req.page").unwrap();
    m.incr("req.page").unwrap();
    m.incr("req.api").unwrap();
    let snapshot = m.snapshot();
    assert_eq!(snapshot, vec![("req.page".to_string(), 2), ("req.api".to_string(), 1)]);
}

#[test]
fn amap_rejects_an_unknown_name() {
    let m = AmapMetrics::new(&["req.page"]);
    assert_eq!(m.incr("req.bogus").unwrap_err(), MatmulError::UnknownMetric);
    assert_eq!(m.snapshot(), vec![("req.page".to_string(), 0)]);
}
