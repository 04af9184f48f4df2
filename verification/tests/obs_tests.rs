use lokan_hub::obs::{ObsInit, ObsInitError, Registry};

#[test]
fn init_is_idempotent() {
    let mut obs = ObsInit::new();
    obs.init("test-service").expect("first init succeeds");
    assert!(matches!(obs.init("test"), Err(ObsInitError::AlreadyInitialized)));
    assert_eq!(obs.service_name().map(|s| s.as_str()), Some("test-service"));
}

fn labels(values: &[&str]) -> Vec<String> {
    values.iter().map(|v| v.to_string()).collect()
}

#[test]
fn metrics_endpoint_reports_uptime() {
    let mut registry = Registry::new();
    let uptime = registry.process_uptime_seconds();
    registry.gauges[uptime].set(&labels(&["updater"]), 12_500_000);
    let text = String::from_utf8(registry.encode_prometheus()).expect("exposition is text");
    assert!(text.contains("# TYPE process_uptime_seconds gauge"));
    assert!(text.contains("process_uptime_seconds{service=\"updater\"} 12.5"));
}

#[test]
fn metrics_endpoint_returns_uptime() {
    let mut registry = Registry::new();
    let uptime = registry.process_uptime_seconds();
    registry.gauges[uptime].ensure(&labels(&["api-gateway"]));
    let text = String::from_utf8(registry.encode_prometheus()).expect("exposition is text");
    assert!(text.contains("process_uptime_seconds{service=\"api-gateway\"} 0.0"));
}

#[test]
fn counters_accumulate_per_label_tuple() {
    let mut registry = Registry::new();
    let requests = registry.http_requests_total();
    let counter = &mut registry.counters[requests];
    counter.inc(&labels(&["svc", "/v1/info", "200"]), 1);
    counter.inc(&labels(&["svc", "/v1/info", "200"]), 2);
    counter.inc(&labels(&["svc", "/v1/info", "404"]), 5);
    assert_eq!(counter.get(&labels(&["svc", "/v1/info", "200"])), 3);
    assert_eq!(counter.get(&labels(&["svc", "/v1/info", "404"])), 5);
    assert_eq!(counter.get(&labels(&["svc", "/v1/info", "500"])), 0);

    let text = String::from_utf8(registry.encode_prometheus()).unwrap();
    assert!(text.contains("# TYPE http_requests_total counter"));
    assert!(text.contains("http_requests_total{service=\"svc\",route=\"/v1/info\",code=\"200\"} 3"));
}

#[test]
fn histogram_buckets_are_cumulative_and_inf_equals_count() {
    let mut registry = Registry::new();
    let latency = registry.handler_latency_seconds();
    let hist = &mut registry.histograms[latency];
    // 0.02s, 0.02s, 0.3s and 9s: buckets 0.05 and 0.5 catch them, 9s
    // overflows.
    hist.observe(&labels(&["svc", "/v1/info"]), 20_000);
    hist.observe(&labels(&["svc", "/v1/info"]), 20_000);
    hist.observe(&labels(&["svc", "/v1/info"]), 300_000);
    hist.observe(&labels(&["svc", "/v1/info"]), 9_000_000);

    let text = String::from_utf8(registry.encode_prometheus()).unwrap();
    assert!(text.contains("handler_latency_seconds_bucket{service=\"svc\",route=\"/v1/info\",le=\"0.01\"} 0"));
    assert!(text.contains("le=\"0.05\"} 2"));
    assert!(text.contains("le=\"0.5\"} 3"));
    assert!(text.contains("le=\"5.0\"} 3"));
    assert!(text.contains("le=\"+Inf\"} 4"));
    assert!(text.contains("handler_latency_seconds_count{service=\"svc\",route=\"/v1/info\"} 4"));
    // The sum is 9.34 seconds.
    assert!(text.contains("handler_latency_seconds_sum{service=\"svc\",route=\"/v1/info\"} 9.34"));

    // Cumulative counts never decrease along the buckets.
    let data = &registry.histograms[latency].samples[0].1;
    let mut cumulative = 0u64;
    let mut last = 0u64;
    for c in &data.counts {
        cumulative += c;
        assert!(cumulative >= last);
        last = cumulative;
    }
    assert_eq!(cumulative, data.count);
}

#[test]
fn registered_families_are_reused_by_name() {
    let mut registry = Registry::new();
    let a = registry.register_counter(
        "msgbus_publish_total".to_string(),
        "Total messages published to the message bus".to_string(),
        labels(&["service", "subject"]),
    );
    let b = registry.msgbus_publish_total();
    assert_eq!(a, b);
    let c = registry.msgbus_subscribe_total();
    assert_ne!(a, c);
    let info = registry.build_info();
    registry.gauges[info].set(&labels(&["svc", "1.0", "sha", "time"]), 1_000_000);
    let text = String::from_utf8(registry.encode_prometheus()).unwrap();
    assert!(text.contains("build_info{service=\"svc\",version=\"1.0\",build_sha=\"sha\",build_time=\"time\"} 1.0"));
}

#[test]
fn label_values_are_escaped() {
    let mut registry = Registry::new();
    let idx = registry.register_counter(
        "odd_labels_total".to_string(),
        "Counter with labels needing escapes".to_string(),
        labels(&["text"]),
    );
    registry.counters[idx].inc(&labels(&["a\"b\\c\nd"]), 1);
    let text = String::from_utf8(registry.encode_prometheus()).unwrap();
    assert!(text.contains("odd_labels_total{text=\"a\\\"b\\\\c\\nd\"} 1"));
}

#[test]
fn exposition_is_sorted_by_label_tuple() {
    let mut registry = Registry::new();
    let idx = registry.register_counter(
        "requests_total".to_string(),
        "Requests by route".to_string(),
        labels(&["route"]),
    );
    registry.counters[idx].inc(&labels(&["zeta"]), 1);
    registry.counters[idx].inc(&labels(&["alpha"]), 2);
    registry.counters[idx].inc(&labels(&["midway"]), 3);
    let text = String::from_utf8(registry.encode_prometheus()).unwrap();
    let alpha = text.find("requests_total{route=\"alpha\"} 2").expect("alpha line");
    let midway = text.find("requests_total{route=\"midway\"} 3").expect("midway line");
    let zeta = text.find("requests_total{route=\"zeta\"} 1").expect("zeta line");
    assert!(alpha < midway && midway < zeta);
}

#[test]
fn reregistering_a_family_creates_nothing() {
    let mut registry = Registry::new();
    let first = registry.http_requests_total();
    assert_eq!(registry.counters.len(), 1);
    let second = registry.http_requests_total();
    assert_eq!(first, second);
    assert_eq!(registry.counters.len(), 1);
    let again = registry.register_counter(
        "http_requests_total".to_string(),
        "Total HTTP requests received".to_string(),
        labels(&["service", "route", "code"]),
    );
    assert_eq!(again, first);
    assert_eq!(registry.counters.len(), 1);
}
