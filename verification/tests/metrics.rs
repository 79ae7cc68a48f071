use soroscope_core::AppMetrics;

#[test]
fn every_family_is_registered() {
    let metrics = AppMetrics::new().expect("metrics");
    metrics.simulation_latency_seconds.0.with_label_values(&["/simulate"]).observe(0.25);
    metrics.rpc_error_count_total.0.with_label_values(&["/simulate", "timeout"]).inc();
    metrics.simulation_requests_total.0.with_label_values(&["/simulate", "hit"]).inc_by(2);
    metrics.resource_utilization_percent.0.with_label_values(&["cpu"]).set(12.5);
    metrics.host_cpu_usage_percent.0.with_label_values(&["local"]).set(50.0);
    metrics.host_memory_usage_percent.0.with_label_values(&["local"]).set(60.0);
    metrics.process_memory_bytes.0.with_label_values(&["self"]).set(4096.0);
    metrics.indexing_latency_seconds.0.with_label_values(&["collect"]).observe(1.5);
    metrics.events_processed_total.0.with_label_values(&["collect"]).inc();
    metrics.indexing_errors_total.0.with_label_values(&["collect"]).inc();
    metrics.job_queue_depth.0.with_label_values(&["simulate"]).set(3.0);

    let gathered: Vec<(String, String)> = metrics
        .registry
        .gather()
        .iter()
        .map(|family| (family.get_name().to_string(), family.get_help().to_string()))
        .collect();
    let expected = [
        ("events_processed_total", "Total number of ledger events successfully processed"),
        (
            "host_cpu_usage_percent",
            "Host-wide CPU usage percentage (0-100) sampled by the system alarm monitor",
        ),
        (
            "host_memory_usage_percent",
            "Host-wide memory usage percentage (0-100) sampled by the system alarm monitor",
        ),
        ("indexing_errors_total", "Total number of indexing cycle failures"),
        ("indexing_latency_seconds", "Latency of ledger indexing/collection cycles in seconds"),
        ("job_queue_depth", "Current depth of background job queues"),
        ("process_memory_bytes", "Resident memory size of the SoroScope process in bytes"),
        (
            "resource_utilization_percent",
            "Resource utilization percentage from latest simulation sample",
        ),
        ("rpc_error_count_total", "Total number of RPC and simulation errors"),
        ("simulation_latency_seconds", "Latency of simulation requests in seconds"),
        (
            "simulation_requests_total",
            "Total number of simulation requests by endpoint and cache status",
        ),
    ];
    assert_eq!(gathered.len(), expected.len());
    for ((name, help), (expected_name, expected_help)) in gathered.iter().zip(expected) {
        assert_eq!(name, expected_name);
        assert_eq!(help, expected_help);
    }
    assert_eq!(
        metrics.simulation_requests_total.0.with_label_values(&["/simulate", "hit"]).get(),
        2
    );
}

#[test]
fn label_names_are_fixed() {
    let metrics = AppMetrics::new().expect("metrics");
    assert!(metrics.rpc_error_count_total.0.get_metric_with_label_values(&["one"]).is_err());
    assert!(metrics.rpc_error_count_total.0.get_metric_with_label_values(&["a", "b"]).is_ok());
    assert!(metrics.job_queue_depth.0.get_metric_with_label_values(&["a", "b"]).is_err());
}

#[test]
fn each_set_of_metrics_has_its_own_registry() {
    let first = AppMetrics::new().expect("metrics");
    assert!(first.registry.gather().is_empty());
    first.events_processed_total.0.with_label_values(&["collect"]).inc();
    let second = AppMetrics::new().expect("metrics");
    assert_eq!(first.registry.gather().len(), 1);
    assert!(second.registry.gather().is_empty());
    assert_eq!(second.events_processed_total.0.with_label_values(&["collect"]).get(), 0);
}

#[test]
fn registry_exports_what_the_families_record() {
    let metrics = AppMetrics::new().expect("metrics");
    metrics.simulation_requests_total.0.with_label_values(&["/simulate", "hit"]).inc_by(2);
    metrics.job_queue_depth.0.with_label_values(&["simulate"]).set(3.0);
    metrics.indexing_latency_seconds.0.with_label_values(&["collect"]).observe(1.5);
    let gathered = metrics.registry.gather();
    let found = |name: &str| gathered.iter().find(|family| family.get_name() == name).unwrap();
    let hits = &found("simulation_requests_total").get_metric()[0];
    assert_eq!(hits.get_counter().get_value(), 2.0);
    assert_eq!(found("job_queue_depth").get_metric()[0].get_gauge().get_value(), 3.0);
    let latency = &found("indexing_latency_seconds").get_metric()[0];
    assert_eq!(latency.get_histogram().get_sample_count(), 1);
    assert_eq!(latency.get_histogram().get_sample_sum(), 1.5);
}

#[test]
fn descriptor_identifiers_are_name_hashes() {
    let metrics = AppMetrics::new().expect("metrics");
    assert_eq!(prometheus::core::Collector::desc(&metrics.simulation_latency_seconds.0)[0].id, 0xe1da6e3c561520a2);
    assert_eq!(prometheus::core::Collector::desc(&metrics.rpc_error_count_total.0)[0].id, 0x4b97659d5d40b495);
    assert_eq!(prometheus::core::Collector::desc(&metrics.job_queue_depth.0)[0].id, 0x1c1a60c5e4d813eb);
}

#[test]
fn clones_share_families_and_registry() {
    let metrics = AppMetrics::new().expect("metrics");
    let other = metrics.clone();
    other.events_processed_total.0.with_label_values(&["collect"]).inc_by(3);
    assert_eq!(metrics.events_processed_total.0.with_label_values(&["collect"]).get(), 3);
    assert_eq!(metrics.registry.gather().len(), 1);
    assert_eq!(other.registry.gather().len(), 1);
}
