use quickpulse_agent::config::Config;
use quickpulse_agent::performance::{PerformanceCollector, QuickPulseMetricNames};

#[test]
fn config_reads_all_three_endpoints() {
    let config = Config::new(String::from(
        "InstrumentationKey=abc;IngestionEndpoint=https://in.example/;LiveEndpoint=https://live.example/",
    ));
    assert_eq!(config.ikey, "abc");
    assert_eq!(config.ingestion_endpoint, "https://in.example/");
    assert_eq!(config.live_endpoint, "https://live.example/");
}

#[test]
fn config_ignores_unknown_and_malformed_parts() {
    let config = Config::new(String::from("Other=1;noequals;InstrumentationKey=k"));
    assert_eq!(config.ikey, "k");
    assert_eq!(config.ingestion_endpoint, "");
    assert_eq!(config.live_endpoint, "");
}

#[test]
fn config_last_occurrence_wins_and_values_keep_equals() {
    let config = Config::new(String::from("InstrumentationKey=a;InstrumentationKey=b=c"));
    assert_eq!(config.ikey, "b=c");
}

#[test]
fn counter_paths_are_verbatim() {
    assert_eq!(
        QuickPulseMetricNames::TotalProcessorTime.as_str(),
        "\\Processor(_Total)\\% Processor Time"
    );
    assert_eq!(
        QuickPulseMetricNames::RequestsPerSecond.as_str(),
        "\\ApplicationInsights\\Requests/Sec"
    );
    assert_eq!(
        QuickPulseMetricNames::FailedRequestsPerSecond.as_str(),
        "\\ApplicationInsights\\Requests Failed/Sec"
    );
    assert_eq!(
        QuickPulseMetricNames::DependencyCallsPerSecond.as_str(),
        "\\ApplicationInsights\\Dependency Calls/Sec"
    );
    assert_eq!(
        QuickPulseMetricNames::FailedDependencyCallsPerSecond.as_str(),
        "\\ApplicationInsights\\Dependency Calls Failed/Sec"
    );
    assert_eq!(
        QuickPulseMetricNames::ExceptionsPerSecond.as_str(),
        "\\ApplicationInsights\\Exceptions/Sec"
    );
    assert_eq!(QuickPulseMetricNames::MemoryCommittedBytes.as_str(), "\\Memory\\Committed Bytes");
}

#[test]
fn collect_rebuilds_the_whole_counter_set() {
    let mut collector = PerformanceCollector::new();
    assert!(!collector.enabled);
    assert!(collector.metrics.is_empty());

    collector.collect();
    assert!(collector.enabled);
    assert_eq!(collector.metrics.len(), 7);
    for pair in &collector.metrics[..5] {
        assert!(pair.0 != QuickPulseMetricNames::MemoryCommittedBytes);
        assert!(pair.0 != QuickPulseMetricNames::TotalProcessorTime);
        assert_eq!(pair.1, "0");
    }
    assert!(matches!(collector.metrics[5].0, QuickPulseMetricNames::MemoryCommittedBytes));
    assert!(collector.metrics[5].1.chars().all(|c| c.is_ascii_digit()));
    assert!(matches!(collector.metrics[6].0, QuickPulseMetricNames::TotalProcessorTime));

    collector.collect();
    assert_eq!(collector.metrics.len(), 7);
}
