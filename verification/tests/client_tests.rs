use quickpulse_agent::envelope::{decode, BaseData};
use quickpulse_agent::quickpulse::{
    metric_from_envelope, Client, Metric, MetricBuffer, TickAction, TickOutcome,
    PING_INTERVAL_SECONDS, POST_INTERVAL_SECONDS,
};

fn test_client() -> Client {
    Client::new(
        String::from("ikey-1"),
        String::from("https://live.example"),
        Some(String::from("instance-1")),
    )
}

fn subscribed() -> TickOutcome {
    TickOutcome::Success { subscribed_header: Some(String::from("true")) }
}

#[test]
fn buffer_drains_once() {
    let mut buffer = MetricBuffer::new();
    buffer.add(Metric {
        Name: String::from("custom"),
        Value: String::from("7"),
        Weight: 2,
    });
    let first = buffer.drain();
    assert_eq!(first.len(), 1);
    assert_eq!(first[0].Name, "custom");
    assert_eq!(first[0].Value, "7");
    assert_eq!(first[0].Weight, 2);
    let second = buffer.drain();
    assert!(second.is_empty());
}

#[test]
fn subscribe_switches_to_post_interval() {
    let mut client = test_client();
    assert!(!client.connected);
    assert_eq!(client.current_interval_seconds(), PING_INTERVAL_SECONDS);
    let request = client.tick_request();
    assert!(matches!(request.action, TickAction::Ping));

    client.apply_response(subscribed());
    assert!(client.connected);
    assert_eq!(client.current_interval_seconds(), POST_INTERVAL_SECONDS);
    let request = client.tick_request();
    assert!(matches!(request.action, TickAction::Post));
}

#[test]
fn unsubscribe_returns_to_ping() {
    let mut client = test_client();
    client.apply_response(subscribed());
    assert!(client.connected);

    client.apply_response(TickOutcome::Success { subscribed_header: None });
    assert!(!client.connected);
    assert_eq!(client.current_interval_seconds(), PING_INTERVAL_SECONDS);
    let request = client.tick_request();
    assert!(matches!(request.action, TickAction::Ping));

    client.apply_response(subscribed());
    client.apply_response(TickOutcome::Success {
        subscribed_header: Some(String::from("false")),
    });
    assert!(!client.connected);
}

#[test]
fn transport_failure_changes_nothing() {
    let mut client = test_client();
    client.apply_response(TickOutcome::Failure);
    assert!(!client.connected);
    assert_eq!(client.current_interval_seconds(), PING_INTERVAL_SECONDS);

    client.apply_response(subscribed());
    client.apply_response(TickOutcome::Failure);
    assert!(client.connected);
    assert_eq!(client.current_interval_seconds(), POST_INTERVAL_SECONDS);
}

#[test]
fn metric_round_trip_keeps_name_and_value() {
    let line = "{\"data\":{\"baseType\":\"MetricData\",\"baseData\":{\"metrics\":[{\"name\":\"X\",\"min\":1,\"max\":5,\"count\":3}]}}}";
    let env = decode(line).expect("well-formed metric line");
    let mut client = test_client();
    match env.data {
        BaseData::MetricData(md) => {
            for m in &md.metrics {
                let wire = metric_from_envelope(m);
                assert_eq!(wire.Name, "X");
                assert_eq!(wire.Value, "5");
                assert_eq!(wire.Weight, 3);
                client._add_metric(wire);
            }
        }
        BaseData::RequestData(_) => panic!("expected a metric record"),
    }
    client.apply_response(subscribed());
    let request = client.tick_request();
    assert!(matches!(request.action, TickAction::Post));
    assert!(request.body.contains("\"Name\":\"X\",\"Value\":\"5\",\"Weight\":3"));

    // Drained on the first post: the next post no longer carries it.
    let request = client.tick_request();
    assert!(!request.body.contains("\"Name\":\"X\""));
}

#[test]
fn post_body_carries_counter_paths_escaped() {
    let mut client = test_client();
    client.apply_response(subscribed());
    let request = client.tick_request();
    assert!(request.body.starts_with("["));
    assert!(request.body.ends_with("]"));
    assert!(request.body.contains("\"Name\":\"\\\\Memory\\\\Committed Bytes\""));
    assert!(request.body.contains("\"Name\":\"\\\\Processor(_Total)\\\\% Processor Time\""));
    assert!(request.body.contains("\"Name\":\"\\\\ApplicationInsights\\\\Requests/Sec\",\"Value\":\"0\",\"Weight\":1"));
    assert!(request.body.contains("\"Documents\":null"));
    assert!(request.body.contains("\"StreamId\":\""));
    assert!(request.body.contains(client.stream_id.as_str()));
}

#[test]
fn ping_request_carries_identity_headers() {
    let mut client = test_client();
    let request = client.tick_request();
    assert!(request.url.starts_with("https://live.example/QuickPulseService.svc/ping?ikey=ikey-1"));
    let names: Vec<&str> = request.headers.iter().map(|h| h.0.as_str()).collect();
    assert_eq!(
        names,
        vec![
            "x-ms-qps-transmission-time",
            "x-ms-qps-stream-id",
            "x-ms-qps-machine-name",
            "x-ms-qps-instance-name",
            "x-ms-qps-role-name",
            "x-ms-qps-invariant-version",
            "Expect",
            "Content-Type",
        ]
    );
    assert_eq!(request.headers[1].1, client.stream_id);
    assert_eq!(request.headers[3].1, "instance-1");
    assert_eq!(request.headers[4].1, "Web");
    assert!(request.body.contains("\"Metrics\":[]"));
    assert!(request.body.contains("\"InstrumentationKey\":\"ikey-1\""));
}

#[test]
fn post_request_omits_identity_headers() {
    let mut client = test_client();
    client.apply_response(subscribed());
    let request = client.tick_request();
    assert!(request.url.starts_with("https://live.example/QuickPulseService.svc/post?ikey=ikey-1"));
    let names: Vec<&str> = request.headers.iter().map(|h| h.0.as_str()).collect();
    assert_eq!(names, vec!["Expect", "x-ms-qps-transmission-time"]);
}

#[test]
fn stream_id_is_stable_and_compact() {
    let mut client = test_client();
    assert_eq!(client.stream_id.len(), 32);
    assert!(!client.stream_id.contains('-'));
    assert!(client
        .stream_id
        .chars()
        .all(|c| c.is_ascii_digit() || ('a'..='f').contains(&c)));
    let before = client.stream_id.clone();
    let _ = client.tick_request();
    client.apply_response(subscribed());
    let _ = client.tick_request();
    assert_eq!(client.stream_id, before);
}

#[test]
fn transmission_time_and_timestamp_formats() {
    assert_eq!(quickpulse_agent::quickpulse::get_transmission_time(0), 621355968000000000);
    assert_eq!(
        quickpulse_agent::quickpulse::get_transmission_time(1700000000),
        638355968000000000
    );
    assert_eq!(quickpulse_agent::quickpulse::get_millis_timestamp_marker(1234), "/Date(1234)/");
    assert_eq!(quickpulse_agent::quickpulse::get_millis_timestamp_marker(-5), "/Date(-5)/");
}

#[test]
fn build_url_joins_endpoint_action_and_key() {
    let client = test_client();
    assert_eq!(
        client.build_url(String::from("ping")),
        "https://live.example/QuickPulseService.svc/ping?ikey=ikey-1"
    );
}
