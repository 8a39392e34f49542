use github_actions_demo::metrics::MetricsCollector;

#[test]
fn increment_and_get() {
    let mut metrics = MetricsCollector::new();
    metrics.increment("requests");
    metrics.increment("requests");
    assert_eq!(metrics.get_count("requests"), 2);
}

#[test]
fn get_missing_counter() {
    let metrics = MetricsCollector::new();
    assert_eq!(metrics.get_count("nonexistent"), 0);
}

#[test]
fn reset_counters() {
    let mut metrics = MetricsCollector::new();
    metrics.increment("a");
    metrics.increment("b");
    metrics.reset();
    assert_eq!(metrics.get_count("a"), 0);
    assert_eq!(metrics.get_count("b"), 0);
}

#[test]
fn counters_are_independent() {
    let mut metrics = MetricsCollector::new();
    metrics.increment("a");
    metrics.increment("b");
    metrics.increment("a");
    assert_eq!(metrics.get_count("a"), 2);
    assert_eq!(metrics.get_count("b"), 1);
    assert_eq!(metrics.get_count("c"), 0);
}

#[test]
fn counting_resumes_after_reset() {
    let mut metrics = MetricsCollector::new();
    metrics.increment("a");
    metrics.reset();
    metrics.increment("a");
    assert_eq!(metrics.get_count("a"), 1);
}
