use prometheus_proxy_server::config::default_log_filter;
use prometheus_proxy_server::limits::{
    bounded, end_of_wait, millis, remaining, request_deadline, scrape_deadline, Limits,
    MAX_DURATION, MAX_INSTANT,
};
use prometheus_proxy_server::protocol::{default_error_status, default_version, default_worker};
use prometheus_proxy_server::routes::{build_router, Endpoint, Method, METRICS_CONTENT_TYPE};
use std::time::Duration;

const SECOND: u128 = 1_000_000_000;

#[test]
fn verbosity_maps_to_expected_default_filter() {
    assert_eq!(default_log_filter(0), "info");
    assert_eq!(default_log_filter(1), "info");
    assert_eq!(default_log_filter(2), "debug");
    assert_eq!(default_log_filter(3), "trace");
    assert_eq!(default_log_filter(u8::MAX), "trace");
}

/// The duration that a header announces, as far as it can be read.
fn announced(value: &str) -> Option<u128> {
    let seconds = value.trim().parse::<f64>().ok()?;
    let timeout = Duration::try_from_secs_f64(seconds).ok()?;
    Some(timeout.as_nanos())
}

fn deadline_for(value: &str) -> Option<Duration> {
    let now = 7 * SECOND;
    scrape_deadline(announced(value), now)
        .map(|deadline| Duration::from_nanos((deadline - now) as u64))
}

#[test]
fn scrape_deadline_is_the_prometheus_timeout() {
    assert_eq!(deadline_for("10"), Some(Duration::from_secs(10)));
    assert_eq!(deadline_for("19.5"), Some(Duration::from_millis(19500)));
    assert_eq!(deadline_for(" 0.3 "), Some(Duration::from_millis(300)));
    for invalid in ["0", "-1", "nan", "inf", "soon", ""] {
        assert_eq!(deadline_for(invalid), None, "{invalid}");
    }
    assert_eq!(scrape_deadline(None, 0), None);
}

#[test]
fn a_deadline_beyond_the_clock_is_none() {
    assert_eq!(scrape_deadline(Some(1), MAX_INSTANT), None);
    assert_eq!(scrape_deadline(Some(1), MAX_INSTANT - 1), Some(MAX_INSTANT));
    assert_eq!(scrape_deadline(Some(MAX_DURATION), 0), None);
}

#[test]
fn without_an_announced_timeout_a_scrape_has_a_minute() {
    let limits = Limits::default();
    assert_eq!(request_deadline(None, SECOND, &limits), Some(61 * SECOND));
    assert_eq!(
        request_deadline(Some(10 * SECOND), SECOND, &limits),
        Some(11 * SECOND)
    );
    assert_eq!(request_deadline(Some(0), SECOND, &limits), Some(61 * SECOND));
}

#[test]
fn an_announced_timeout_needs_no_other_limit() {
    let limits = Limits {
        ready_timeout: MAX_DURATION,
        response_timeout: MAX_DURATION,
        ..Limits::default()
    };
    assert_eq!(request_deadline(Some(SECOND), 0, &limits), Some(SECOND));
}

#[test]
fn what_is_left_of_a_wait_shrinks() {
    let until = end_of_wait(5 * SECOND, 3 * SECOND);
    assert_eq!(until, 8 * SECOND);
    assert_eq!(remaining(until, None, 5 * SECOND), 3 * SECOND);
    assert_eq!(remaining(until, None, 7 * SECOND), SECOND);
    assert_eq!(remaining(until, Some(6 * SECOND), 5 * SECOND), SECOND);
    assert_eq!(remaining(until, None, 9 * SECOND), 0);
    assert_eq!(end_of_wait(u128::MAX - 1, 5), u128::MAX);
}

#[test]
fn waits_are_cut_at_the_deadline() {
    assert_eq!(bounded(30 * SECOND, None, 5 * SECOND), 30 * SECOND);
    assert_eq!(bounded(30 * SECOND, Some(7 * SECOND), 5 * SECOND), 2 * SECOND);
    assert_eq!(bounded(SECOND, Some(7 * SECOND), 5 * SECOND), SECOND);
    assert_eq!(bounded(SECOND, Some(4 * SECOND), 5 * SECOND), 0);
}

#[test]
fn milliseconds_are_whole_and_capped() {
    assert_eq!(millis(1_999_999), 1);
    assert_eq!(millis(0), 0);
    assert_eq!(millis(u128::MAX), u64::MAX);
}

#[test]
fn the_standard_limits_are_the_documented_ones() {
    let limits = Limits::default();
    assert_eq!(limits.ready_timeout, 30 * SECOND);
    assert_eq!(limits.response_timeout, 30 * SECOND);
    assert_eq!(limits.max_in_flight, 1024);
    assert_eq!(limits.heartbeat_interval, 15 * SECOND);
    assert_eq!(limits.heartbeat_timeout, 45 * SECOND);
    assert_eq!(limits.stale_after, 30 * SECOND);
    assert_eq!(limits.retry_wait, 3 * SECOND);
}

#[test]
fn absent_members_have_their_defaults() {
    assert_eq!(default_error_status(), 500);
    assert_eq!(default_version(), 1);
    assert_eq!(default_worker(), "unknown");
}

#[test]
fn routes_are_prefixed_and_come_in_both_forms() {
    let expected = [
        ("/metrics", Method::Get, Endpoint::Metrics),
        ("/proxy/health", Method::Get, Endpoint::Health),
        ("/proxy/health/", Method::Get, Endpoint::Health),
        ("/proxy/ws", Method::Get, Endpoint::WebSocket),
        ("/proxy/ws/", Method::Get, Endpoint::WebSocket),
        (
            "/proxy/request/{instance}/{resource}",
            Method::Get,
            Endpoint::CallResource,
        ),
        (
            "/proxy/request/{instance}/{resource}/",
            Method::Get,
            Endpoint::CallResource,
        ),
        ("/proxy/response/{uid}", Method::Post, Endpoint::Response),
        ("/proxy/response/{uid}/", Method::Post, Endpoint::Response),
    ];
    for prefix in ["proxy", "/proxy", "proxy/", "//proxy//"] {
        let routes = build_router(prefix);
        assert_eq!(routes.len(), expected.len());
        for (route, (path, method, endpoint)) in routes.iter().zip(expected) {
            assert_eq!(route.path, path);
            assert_eq!(route.method, method);
            assert_eq!(route.endpoint, endpoint);
        }
    }
}

#[test]
fn an_empty_prefix_serves_at_the_root() {
    for prefix in ["", "/", "//"] {
        let routes = build_router(prefix);
        assert_eq!(routes[1].path, "/health");
        assert_eq!(routes[8].path, "/response/{uid}/");
    }
    assert_eq!(build_router("/a/b/")[3].path, "/a/b/ws");
}

#[test]
fn metrics_are_exposed_as_text() {
    assert_eq!(METRICS_CONTENT_TYPE, "text/plain; version=0.0.4; charset=utf-8");
}
