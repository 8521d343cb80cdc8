use quickpulse_agent::envelope::{decode, from_duration_string, BaseData, DecodeError};

#[test]
fn test_invalid_duration_string_returns_0_milliseconds() {
    let duration_string = String::from("01:02:03.003.003");
    let expected_duration: u64 = 0;

    assert_eq!(expected_duration, from_duration_string(duration_string));
}

#[test]
fn test_from_valid_duration_string() {
    let duration_string = String::from("00:00:00.003");
    let expected_duration: u64 = 3;

    assert_eq!(expected_duration, from_duration_string(duration_string));
}

#[test]
fn duration_all_components_add_up() {
    assert_eq!(
        from_duration_string(String::from("01:02:03.004")),
        3600000 + 2 * 60000 + 3 * 1000 + 4
    );
    assert_eq!(from_duration_string(String::from("99:00:00.000")), 99 * 3600000);
}

#[test]
fn duration_non_numeric_component_is_zero() {
    assert_eq!(from_duration_string(String::from("aa:bb:cc.dd")), 0);
    assert_eq!(from_duration_string(String::from("00:00:00.")), 0);
    assert_eq!(from_duration_string(String::from("")), 0);
}

#[test]
fn decode_request_record() {
    let line = "{\"data\":{\"baseType\":\"RequestData\",\"baseData\":{\"duration\":\"00:00:00.003\",\"name\":\"GET /\",\"url\":\"http://localhost/\",\"id\":\"abc123\",\"responseCode\":\"200\",\"success\":true}}}";
    let env = decode(line).expect("well-formed request line");
    match env.data {
        BaseData::RequestData(r) => {
            assert_eq!(r.duration, "00:00:00.003");
            assert_eq!(r.name, "GET /");
            assert_eq!(r.url, "http://localhost/");
            assert_eq!(r.id, "abc123");
            assert_eq!(r.responseCode, "200");
            assert!(r.success);
        }
        BaseData::MetricData(_) => panic!("expected a request record"),
    }
}

#[test]
fn decode_metric_record() {
    let line = "{\"data\":{\"baseType\":\"MetricData\",\"baseData\":{\"metrics\":[{\"name\":\"X\",\"min\":1,\"max\":5,\"count\":3,\"kind\":1,\"stdDev\":0}],\"ver\":2}}}";
    let env = decode(line).expect("well-formed metric line");
    match env.data {
        BaseData::MetricData(m) => {
            assert_eq!(m.metrics.len(), 1);
            assert_eq!(m.metrics[0].name, "X");
            assert_eq!(m.metrics[0].min, "1");
            assert_eq!(m.metrics[0].max, "5");
            assert_eq!(m.metrics[0].count, 3);
        }
        BaseData::RequestData(_) => panic!("expected a metric record"),
    }
}

#[test]
fn decode_accepts_members_in_any_order() {
    let line = "{\"data\":{\"baseData\":{\"metrics\":[]},\"baseType\":\"MetricData\"}}";
    let env = decode(line).expect("baseData before baseType is still well-formed");
    match env.data {
        BaseData::MetricData(m) => assert_eq!(m.metrics.len(), 0),
        BaseData::RequestData(_) => panic!("expected a metric record"),
    }
}

#[test]
fn decode_unescapes_names() {
    let line = "{\"data\":{\"baseType\":\"MetricData\",\"baseData\":{\"metrics\":[{\"name\":\"a\\\"b\\\\c\",\"min\":0,\"max\":0,\"count\":1}]}}}";
    let env = decode(line).expect("escaped name is well-formed");
    match env.data {
        BaseData::MetricData(m) => assert_eq!(m.metrics[0].name, "a\"b\\c"),
        BaseData::RequestData(_) => panic!("expected a metric record"),
    }
}

#[test]
fn decode_unicode_escapes() {
    let line = "{\"data\":{\"baseType\":\"MetricData\",\"baseData\":{\"metrics\":[{\"name\":\"\\u0041\\u00e9\\uD83D\\uDE00\",\"min\":0,\"max\":0,\"count\":1}]}}}";
    let env = decode(line).expect("unicode escapes are well-formed");
    match env.data {
        BaseData::MetricData(m) => assert_eq!(m.metrics[0].name, "A\u{e9}\u{1F600}"),
        BaseData::RequestData(_) => panic!("expected a metric record"),
    }
}

#[test]
fn decode_rejects_bad_unicode_escapes() {
    // A lone high surrogate, a lone low surrogate, and non-hex digits.
    let bad_names = ["\\uD83D", "\\uDE00", "\\uZZZZ", "\\u12"];
    for name in bad_names {
        let line = format!(
            "{{\"data\":{{\"baseType\":\"MetricData\",\"baseData\":{{\"metrics\":[{{\"name\":\"{}\",\"min\":0,\"max\":0,\"count\":1}}]}}}}}}",
            name
        );
        assert!(
            matches!(decode(line.as_str()), Err(DecodeError::Malformed)),
            "name: {}",
            name
        );
    }
}

#[test]
fn decode_malformed_lines() {
    let malformed = [
        "",
        "not json",
        "{",
        "{}",
        "{\"data\":}",
        "{\"data\":{}}",
        "{\"data\":{\"baseType\":\"MetricData\"}}",
        "{\"data\":{\"baseType\":\"Unknown\",\"baseData\":{}}}",
        "{\"data\":{\"baseType\":\"MetricData\",\"baseData\":{\"metrics\":[{\"name\":\"X\",\"min\":1,\"max\":5}]}}}",
        "{\"data\":{\"baseType\":\"MetricData\",\"baseData\":{\"metrics\":[{\"name\":\"X\",\"min\":1,\"max\":5,\"count\":3.5}]}}}",
        "{\"data\":{\"baseType\":\"RequestData\",\"baseData\":{\"duration\":\"0\",\"name\":\"n\",\"url\":\"u\",\"id\":\"i\",\"responseCode\":\"200\"}}}",
        "{\"data\":{\"baseType\":\"MetricData\",\"baseData\":{\"metrics\":[]}}} trailing",
        "{\"data\":{\"baseType\":\"MetricData\",\"baseData\":{\"metrics\":[]},\"baseType\":\"MetricData\"}}",
    ];
    for line in malformed {
        assert!(matches!(decode(line), Err(DecodeError::Malformed)), "line: {}", line);
    }
}

#[test]
fn decode_recovers_after_a_bad_line() {
    assert!(decode("garbage").is_err());
    let line = "{\"data\":{\"baseType\":\"MetricData\",\"baseData\":{\"metrics\":[]}}}";
    assert!(decode(line).is_ok());
}
