use prometheus_proxy_server::metrics::{
    header, version_index, CloseReason, Metrics, ScrapeOutcome, Snapshot, VERSION,
};

#[test]
fn renders_every_series_with_labels() {
    let mut metrics = Metrics::default();
    metrics.connection_opened();
    metrics.connection_opened();
    metrics.connection_closed(CloseReason::HeartbeatTimeout);
    metrics.worker_registered(3);
    metrics.worker_registered(7);
    metrics.worker_registered(1);
    metrics.scrape_finished(ScrapeOutcome::WorkerLost);
    metrics.dispatch_retried();

    let text = metrics.render(&Snapshot {
        workers_by_version: [1, 0, 2],
        pending: 4,
        in_flight: 5,
    });

    for line in [
        "proxy_websocket_connections 1",
        "proxy_workers{version=\"1\"} 1",
        "proxy_workers{version=\"3\"} 2",
        "proxy_worker_registrations_total{version=\"3\"} 2",
        "proxy_worker_registrations_total{version=\"1\"} 1",
        "proxy_websocket_closes_total{reason=\"heartbeat_timeout\"} 1",
        "proxy_websocket_closes_total{reason=\"reset\"} 0",
        "proxy_scrapes_total{result=\"worker_lost\"} 1",
        "proxy_scrape_retries_total 1",
        "proxy_pending_requests 4",
        "proxy_in_flight_requests 5",
        "# TYPE proxy_scrapes_total counter",
    ] {
        assert!(text.lines().any(|candidate| candidate == line), "{line}");
    }
    assert!(text.contains(&format!("proxy_build_info{{version=\"{VERSION}\"}} 1\n")));
    assert!(text.ends_with('\n'));
}

#[test]
fn more_closes_than_opens_are_shown_as_none_open() {
    let mut metrics = Metrics::default();
    metrics.connection_closed(CloseReason::Reset);
    let text = metrics.render(&Snapshot {
        workers_by_version: [0, 0, 0],
        pending: 0,
        in_flight: 0,
    });
    assert!(text.lines().any(|line| line == "proxy_websocket_connections 0"));
    assert_eq!(metrics.closes(CloseReason::Reset), 1);
}

#[test]
fn labels_and_indices_follow_the_lists() {
    let reasons = CloseReason::all();
    let labels: Vec<&str> = reasons.iter().map(|reason| reason.label()).collect();
    assert_eq!(
        labels,
        vec![
            "client_close",
            "reset",
            "receive_error",
            "heartbeat_timeout",
            "send_failed",
            "replaced",
            "shutdown",
        ]
    );
    for (index, reason) in reasons.iter().enumerate() {
        assert_eq!(reason.index(), index);
    }
    let outcomes = ScrapeOutcome::all();
    let labels: Vec<&str> = outcomes.iter().map(|outcome| outcome.label()).collect();
    assert_eq!(
        labels,
        vec![
            "proxied",
            "unknown_instance",
            "capacity",
            "no_idle_worker",
            "ready_timeout",
            "worker_lost",
            "response_timeout",
        ]
    );
    for (index, outcome) in outcomes.iter().enumerate() {
        assert_eq!(outcome.index(), index);
    }
}

#[test]
fn newer_versions_count_as_the_newest_known() {
    assert_eq!(version_index(0), 0);
    assert_eq!(version_index(1), 0);
    assert_eq!(version_index(2), 1);
    assert_eq!(version_index(3), 2);
    assert_eq!(version_index(u16::MAX), 2);
}

#[test]
fn a_header_names_help_and_type() {
    let mut out = String::new();
    header(&mut out, "some_total", "counter", "What it counts.");
    assert_eq!(
        out,
        "# HELP some_total What it counts.\n# TYPE some_total counter\n"
    );
}

#[test]
fn counters_count_a_run() {
    let mut metrics = Metrics::default();
    let reasons = [CloseReason::Reset, CloseReason::Replaced, CloseReason::Reset];
    for reason in reasons {
        metrics.connection_opened();
        metrics.connection_opened();
        metrics.connection_closed(reason);
    }
    assert_eq!(metrics.closes(CloseReason::Reset), 2);
    assert_eq!(metrics.closes(CloseReason::Replaced), 1);
    let closes: u64 = CloseReason::all().iter().map(|reason| metrics.closes(*reason)).sum();
    assert_eq!(closes, 3);
    let scrapes: u64 = ScrapeOutcome::all().iter().map(|it| metrics.scrapes(*it)).sum();
    assert_eq!(scrapes, 0);
    assert_eq!(metrics.retries(), 0);
    let text = metrics.render(&Snapshot {
        workers_by_version: [0, 0, 0],
        pending: 0,
        in_flight: 0,
    });
    assert!(text.lines().any(|line| line == "proxy_websocket_connections 3"));
}
