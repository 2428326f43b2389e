use network_bridge_proxy::metrics::{
    Metrics,
    data_transferred_series, inc_connections_total, inc_errors_total, init_metrics,
    is_valid_namespace, not_found_body, route_metrics_request, MetricFamily, MetricsError, MetricsRoute,
    MetricsSlot,
};
use network_bridge_proxy::tunnel::{settle_tunnel, TunnelOutcome};

fn add_data_transferred(slot: &mut MetricsSlot, direction: &str, bytes: u64) {
    if let Some(series) = data_transferred_series(slot, direction) {
        series.inner.inc_by(bytes as f64);
    }
}

fn series_count(name: &str) -> usize {
    let metric_families = prometheus::gather();
    metric_families
        .iter()
        .find(|m| m.get_name() == name)
        .map(|m| m.get_metric().len())
        .unwrap_or(0)
}

#[test]
fn test_metrics() {
    let mut slot = MetricsSlot::new();
    // Initialize metrics
    init_metrics(&mut slot, "bridge_proxy").unwrap();

    // Test connections counter
    inc_connections_total(&mut slot, "inbound");
    inc_connections_total(&mut slot, "outbound");

    // Test errors counter
    inc_errors_total(&mut slot, "dns_resolution_failed");
    inc_errors_total(&mut slot, "timeout");
    inc_errors_total(&mut slot, "connection_refused");

    // Test data transfer counter
    add_data_transferred(&mut slot, "in", 1024);
    add_data_transferred(&mut slot, "out", 2048);

    // Check if metrics are registered correctly
    let metric_families = prometheus::gather();

    let connections_metric = metric_families
        .iter()
        .find(|m| m.get_name() == "bridge_proxy_connections_total")
        .expect("connections_total metric should exist");
    assert_eq!(connections_metric.get_metric().len(), 2);

    let errors_metric = metric_families
        .iter()
        .find(|m| m.get_name() == "bridge_proxy_errors_total")
        .expect("errors_total metric should exist");
    assert_eq!(errors_metric.get_metric().len(), 3);

    let data_metric = metric_families
        .iter()
        .find(|m| m.get_name() == "bridge_proxy_data_transferred_bytes_total")
        .expect("data_transferred_bytes_total metric should exist");
    assert_eq!(data_metric.get_metric().len(), 2);
}

#[test]
fn counting_before_init_does_nothing() {
    let mut slot = MetricsSlot::new();
    assert!(!slot.is_initialized());
    inc_connections_total(&mut slot, "inbound");
    inc_errors_total(&mut slot, "timeout");
    assert!(data_transferred_series(&mut slot, "in").is_none());
    assert!(!slot.is_initialized());
}

#[test]
fn repeated_labels_share_one_series() {
    let mut slot = MetricsSlot::new();
    init_metrics(&mut slot, "repeat_check").unwrap();
    assert!(slot.is_initialized());
    assert_eq!(series_count("repeat_check_connections_total"), 0);
    inc_connections_total(&mut slot, "inbound");
    inc_connections_total(&mut slot, "inbound");
    inc_connections_total(&mut slot, "outbound");
    assert_eq!(series_count("repeat_check_connections_total"), 2);
    assert_eq!(series_count("repeat_check_errors_total"), 0);
    let families = prometheus::gather();
    let conns = families
        .iter()
        .find(|m| m.get_name() == "repeat_check_connections_total")
        .unwrap();
    let inbound = conns
        .get_metric()
        .iter()
        .find(|m| m.get_label()[0].get_value() == "inbound")
        .unwrap();
    assert_eq!(inbound.get_label()[0].get_name(), "direction");
    assert_eq!(inbound.get_counter().get_value(), 2.0);
}

#[test]
fn second_registration_is_refused() {
    let mut slot = MetricsSlot::new();
    init_metrics(&mut slot, "twice_check").unwrap();
    let mut other = MetricsSlot::new();
    match init_metrics(&mut other, "twice_check") {
        Err(MetricsError::Registration { family, .. }) => {
            assert_eq!(family, MetricFamily::Connections)
        }
        Ok(()) => panic!("a second registration of the same names must fail"),
    }
    assert!(!other.is_initialized());
}

#[test]
fn empty_namespace_names_the_bare_families() {
    let mut slot = MetricsSlot::new();
    // Only one test in the process may use the bare names.
    init_metrics(&mut slot, "").unwrap();
    inc_errors_total(&mut slot, "timeout");
    assert_eq!(series_count("errors_total"), 1);
}

#[test]
fn tunnel_errors_are_counted() {
    let mut slot = MetricsSlot::new();
    init_metrics(&mut slot, "tunnel_check").unwrap();
    let r = settle_tunnel(&mut slot, TunnelOutcome::Failed("broken pipe".to_string()));
    assert_eq!(r.err().unwrap().message(), "Tunnel error: broken pipe");
    let r = settle_tunnel(&mut slot, TunnelOutcome::TimedOut);
    assert_eq!(r.err().unwrap().message(), "Tunnel timed out");
    assert_eq!(series_count("tunnel_check_errors_total"), 2);
    let r = settle_tunnel(
        &mut slot,
        TunnelOutcome::Finished { from_client: 5, from_target: 7 },
    )
    .unwrap();
    assert_eq!(r, vec![("in", 5), ("out", 7)]);
    assert_eq!(series_count("tunnel_check_data_transferred_bytes_total"), 0);
}

#[test]
fn namespaces() {
    assert!(is_valid_namespace("bridge_proxy"));
    assert!(is_valid_namespace(""));
    assert!(is_valid_namespace(":a9_"));
    assert!(!is_valid_namespace("9abc"));
    assert!(!is_valid_namespace("a-b"));
    assert!(!is_valid_namespace("a b"));
}

#[test]
fn metrics_routes() {
    assert_eq!(route_metrics_request("GET", "/metrics"), MetricsRoute::Scrape);
    assert_eq!(route_metrics_request("POST", "/metrics"), MetricsRoute::NotFound);
    assert_eq!(route_metrics_request("GET", "/"), MetricsRoute::NotFound);
    assert_eq!(route_metrics_request("GET", "/metrics/"), MetricsRoute::NotFound);
    assert_eq!(not_found_body(), "Not Found");
}

#[test]
fn metrics_route_statuses() {
    assert_eq!(route_metrics_request("GET", "/metrics").status(), 200);
    assert_eq!(route_metrics_request("DELETE", "/metrics").status(), 404);
    assert_eq!(MetricsRoute::NotFound.status(), 404);
}

fn series_value(family: &str, label: &str) -> Option<f64> {
    let families = prometheus::gather();
    let f = families.iter().find(|m| m.get_name() == family)?;
    f.get_metric()
        .iter()
        .find(|m| m.get_label()[0].get_value() == label)
        .map(|m| m.get_counter().get_value())
}

#[test]
fn a_refused_registration_names_the_family() {
    let mut slot = MetricsSlot::new();
    init_metrics(&mut slot, "partial_check").unwrap();
    let mut again = Metrics::new("partial_check");
    match again.register_all() {
        Err(MetricsError::Registration { family, .. }) => {
            assert_eq!(family, MetricFamily::Connections)
        }
        Ok(()) => panic!("the names are taken"),
    }
    // The new families were not added: counting in them shows nowhere.
    again.inc_errors_total("not_registered");
    assert_eq!(series_value("partial_check_errors_total", "not_registered"), None);
}

#[test]
fn each_count_rises_by_one() {
    let mut slot = MetricsSlot::new();
    init_metrics(&mut slot, "count_check").unwrap();
    let _ = settle_tunnel(&mut slot, TunnelOutcome::Failed("reset".to_string()));
    assert_eq!(series_value("count_check_errors_total", "tunnel_error"), Some(1.0));
    let _ = settle_tunnel(&mut slot, TunnelOutcome::Failed("reset".to_string()));
    let _ = settle_tunnel(&mut slot, TunnelOutcome::TimedOut);
    assert_eq!(series_value("count_check_errors_total", "tunnel_error"), Some(2.0));
    assert_eq!(series_value("count_check_errors_total", "tunnel_timeout"), Some(1.0));
    inc_connections_total(&mut slot, "outbound");
    assert_eq!(series_value("count_check_connections_total", "outbound"), Some(1.0));
}
