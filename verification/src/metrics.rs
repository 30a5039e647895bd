//! Counters of the server and their text exposition.

use crate::text::{decimal, push_decimal};
use vstd::prelude::*;
use vstd::string::*;

verus! {

/// The released version of the server.
pub const VERSION: &'static str = "3.0.1";

/// Why a WebSocket connection loop ended.
#[derive(Clone, Copy, Debug, Eq, PartialEq, Structural)]
pub enum CloseReason {
    /// The peer sent a close frame.
    ClientClose,
    /// The transport ended without a close frame (EOF, ECONNRESET, broken pipe).
    Reset,
    /// Any other receive error, such as a protocol violation.
    ReceiveError,
    /// Nothing was received within the heartbeat timeout.
    HeartbeatTimeout,
    /// A send did not complete within the send timeout or failed.
    SendFailed,
    /// Another connection registered the same worker name.
    Replaced,
    /// The server is shutting down.
    Shutdown,
}

impl CloseReason {
    /// Every reason once, in the order in which the series are exposed.
    pub open spec fn listed() -> Seq<CloseReason> {
        seq![
            CloseReason::ClientClose,
            CloseReason::Reset,
            CloseReason::ReceiveError,
            CloseReason::HeartbeatTimeout,
            CloseReason::SendFailed,
            CloseReason::Replaced,
            CloseReason::Shutdown,
        ]
    }

    /// Where the reason stands in the list of all reasons.
    pub open spec fn position(self) -> int {
        match self {
            CloseReason::ClientClose => 0,
            CloseReason::Reset => 1,
            CloseReason::ReceiveError => 2,
            CloseReason::HeartbeatTimeout => 3,
            CloseReason::SendFailed => 4,
            CloseReason::Replaced => 5,
            CloseReason::Shutdown => 6,
        }
    }

    /// The text by which the reason is exposed and logged.
    pub open spec fn name(self) -> Seq<char> {
        match self {
            CloseReason::ClientClose => "client_close"@,
            CloseReason::Reset => "reset"@,
            CloseReason::ReceiveError => "receive_error"@,
            CloseReason::HeartbeatTimeout => "heartbeat_timeout"@,
            CloseReason::SendFailed => "send_failed"@,
            CloseReason::Replaced => "replaced"@,
            CloseReason::Shutdown => "shutdown"@,
        }
    }

    /// Every reason once, in the order in which the series are exposed.
    pub fn all() -> (reasons: [CloseReason; 7])
        ensures
            reasons@ == Self::listed(),
    {
        let reasons = [
            CloseReason::ClientClose,
            CloseReason::Reset,
            CloseReason::ReceiveError,
            CloseReason::HeartbeatTimeout,
            CloseReason::SendFailed,
            CloseReason::Replaced,
            CloseReason::Shutdown,
        ];
        assert(reasons@ =~= Self::listed());
        reasons
    }

    /// The text by which the reason is exposed and logged.
    pub fn label(self) -> (label: &'static str)
        ensures
            label@ == self.name(),
    {
        match self {
            CloseReason::ClientClose => "client_close",
            CloseReason::Reset => "reset",
            CloseReason::ReceiveError => "receive_error",
            CloseReason::HeartbeatTimeout => "heartbeat_timeout",
            CloseReason::SendFailed => "send_failed",
            CloseReason::Replaced => "replaced",
            CloseReason::Shutdown => "shutdown",
        }
    }

    /// Where the reason stands in the list of all reasons.
    pub fn index(self) -> (index: usize)
        ensures
            index == self.position(),
            index < Self::listed().len(),
            Self::listed()[index as int] == self,
    {
        match self {
            CloseReason::ClientClose => 0,
            CloseReason::Reset => 1,
            CloseReason::ReceiveError => 2,
            CloseReason::HeartbeatTimeout => 3,
            CloseReason::SendFailed => 4,
            CloseReason::Replaced => 5,
            CloseReason::Shutdown => 6,
        }
    }
}

/// Final outcome of one Prometheus scrape request.
#[derive(Clone, Copy, Debug, Eq, PartialEq, Structural)]
pub enum ScrapeOutcome {
    /// A worker returned the exporter status and body.
    Proxied,
    /// No worker is registered for the instance (404).
    UnknownInstance,
    /// The global in-flight limit is exhausted (503).
    Capacity,
    /// Every registered worker is busy, stale, or closing (503).
    NoIdleWorker,
    /// No worker answered the ready broadcast in time (503).
    ReadyTimeout,
    /// Selected workers disconnected and no retry succeeded (503).
    WorkerLost,
    /// The selected worker did not return a response in time (501).
    ResponseTimeout,
}

impl ScrapeOutcome {
    /// Every outcome once, in the order in which the series are exposed.
    pub open spec fn listed() -> Seq<ScrapeOutcome> {
        seq![
            ScrapeOutcome::Proxied,
            ScrapeOutcome::UnknownInstance,
            ScrapeOutcome::Capacity,
            ScrapeOutcome::NoIdleWorker,
            ScrapeOutcome::ReadyTimeout,
            ScrapeOutcome::WorkerLost,
            ScrapeOutcome::ResponseTimeout,
        ]
    }

    /// Where the outcome stands in the list of all outcomes.
    pub open spec fn position(self) -> int {
        match self {
            ScrapeOutcome::Proxied => 0,
            ScrapeOutcome::UnknownInstance => 1,
            ScrapeOutcome::Capacity => 2,
            ScrapeOutcome::NoIdleWorker => 3,
            ScrapeOutcome::ReadyTimeout => 4,
            ScrapeOutcome::WorkerLost => 5,
            ScrapeOutcome::ResponseTimeout => 6,
        }
    }

    /// The text by which the outcome is exposed and logged.
    pub open spec fn name(self) -> Seq<char> {
        match self {
            ScrapeOutcome::Proxied => "proxied"@,
            ScrapeOutcome::UnknownInstance => "unknown_instance"@,
            ScrapeOutcome::Capacity => "capacity"@,
            ScrapeOutcome::NoIdleWorker => "no_idle_worker"@,
            ScrapeOutcome::ReadyTimeout => "ready_timeout"@,
            ScrapeOutcome::WorkerLost => "worker_lost"@,
            ScrapeOutcome::ResponseTimeout => "response_timeout"@,
        }
    }

    /// Every outcome once, in the order in which the series are exposed.
    pub fn all() -> (outcomes: [ScrapeOutcome; 7])
        ensures
            outcomes@ == Self::listed(),
    {
        let outcomes = [
            ScrapeOutcome::Proxied,
            ScrapeOutcome::UnknownInstance,
            ScrapeOutcome::Capacity,
            ScrapeOutcome::NoIdleWorker,
            ScrapeOutcome::ReadyTimeout,
            ScrapeOutcome::WorkerLost,
            ScrapeOutcome::ResponseTimeout,
        ];
        assert(outcomes@ =~= Self::listed());
        outcomes
    }

    /// The text by which the outcome is exposed and logged.
    pub fn label(self) -> (label: &'static str)
        ensures
            label@ == self.name(),
    {
        match self {
            ScrapeOutcome::Proxied => "proxied",
            ScrapeOutcome::UnknownInstance => "unknown_instance",
            ScrapeOutcome::Capacity => "capacity",
            ScrapeOutcome::NoIdleWorker => "no_idle_worker",
            ScrapeOutcome::ReadyTimeout => "ready_timeout",
            ScrapeOutcome::WorkerLost => "worker_lost",
            ScrapeOutcome::ResponseTimeout => "response_timeout",
        }
    }

    /// Where the outcome stands in the list of all outcomes.
    pub fn index(self) -> (index: usize)
        ensures
            index == self.position(),
            index < Self::listed().len(),
            Self::listed()[index as int] == self,
    {
        match self {
            ScrapeOutcome::Proxied => 0,
            ScrapeOutcome::UnknownInstance => 1,
            ScrapeOutcome::Capacity => 2,
            ScrapeOutcome::NoIdleWorker => 3,
            ScrapeOutcome::ReadyTimeout => 4,
            ScrapeOutcome::WorkerLost => 5,
            ScrapeOutcome::ResponseTimeout => 6,
        }
    }
}

/// The class under which a wire version is counted.
pub open spec fn version_class(version: u16) -> int {
    if version <= 1 {
        0
    } else if version == 2 {
        1
    } else {
        2
    }
}

/// Wire versions are reported as 1, 2, and 3; newer versions count as 3.
pub fn version_index(version: u16) -> (index: usize)
    ensures
        index == version_class(version),
{
    match version {
        0 | 1 => 0,
        2 => 1,
        _ => 2,
    }
}

/// The text by which a class of wire versions is exposed.
pub open spec fn version_name(class: int) -> Seq<char> {
    if class == 0 {
        "1"@
    } else if class == 1 {
        "2"@
    } else {
        "3"@
    }
}

/// The text by which a class of wire versions is exposed.
fn version_label(class: usize) -> (label: &'static str)
    ensures
        label@ == version_name(class as int),
{
    match class {
        0 => "1",
        1 => "2",
        _ => "3",
    }
}

/// What the counters stand at.
#[verifier::ext_equal]
pub struct MetricsView {
    pub open_connections: i64,
    pub closes: Seq<u64>,
    pub registrations: Seq<u64>,
    pub scrapes: Seq<u64>,
    pub retries: u64,
}

impl MetricsView {
    /// The counters of a server that has just started.
    pub open spec fn zero() -> MetricsView {
        MetricsView {
            open_connections: 0,
            closes: Seq::new(7, |i: int| 0u64),
            registrations: Seq::new(3, |i: int| 0u64),
            scrapes: Seq::new(7, |i: int| 0u64),
            retries: 0,
        }
    }

    /// There is a counter for every reason, every class of wire versions and every outcome.
    pub open spec fn complete(self) -> bool {
        &&& self.closes.len() == 7
        &&& self.registrations.len() == 3
        &&& self.scrapes.len() == 7
    }

    /// After one more connection was accepted.
    pub open spec fn opened(self) -> MetricsView {
        MetricsView { open_connections: self.open_connections.wrapping_add(1), ..self }
    }

    /// After a connection ended for `reason`.
    pub open spec fn closed(self, reason: CloseReason) -> MetricsView {
        MetricsView {
            open_connections: self.open_connections.wrapping_sub(1),
            closes: self.closes.update(
                reason.position(),
                self.closes[reason.position()].wrapping_add(1),
            ),
            ..self
        }
    }

    /// After a worker of wire version `version` registered.
    pub open spec fn registered(self, version: u16) -> MetricsView {
        let class = version_class(version);
        MetricsView {
            registrations: self.registrations.update(
                class,
                self.registrations[class].wrapping_add(1),
            ),
            ..self
        }
    }

    /// After a scrape ended with `outcome`.
    pub open spec fn finished(self, outcome: ScrapeOutcome) -> MetricsView {
        MetricsView {
            scrapes: self.scrapes.update(
                outcome.position(),
                self.scrapes[outcome.position()].wrapping_add(1),
            ),
            ..self
        }
    }

    /// After a scrape was dispatched again.
    pub open spec fn retried(self) -> MetricsView {
        MetricsView { retries: self.retries.wrapping_add(1), ..self }
    }
}

/// The counters of one server.
pub struct Metrics {
    open_connections: i64,
    closes: [u64; 7],
    registrations: [u64; 3],
    scrapes: [u64; 7],
    retries: u64,
}

/// The gauges that are read from the request state when the metrics are rendered.
pub struct Snapshot {
    pub workers_by_version: [u64; 3],
    pub pending: usize,
    pub in_flight: usize,
}

impl View for Metrics {
    type V = MetricsView;

    closed spec fn view(&self) -> MetricsView {
        MetricsView {
            open_connections: self.open_connections,
            closes: self.closes@,
            registrations: self.registrations@,
            scrapes: self.scrapes@,
            retries: self.retries,
        }
    }
}

/// The counters of a server are complete, so that each count raises its own counter by one.
pub proof fn metrics_are_complete(metrics: &Metrics)
    ensures
        metrics@.complete(),
{
}

impl Default for Metrics {
    fn default() -> (metrics: Self)
        ensures
            metrics@ == MetricsView::zero(),
    {
        let metrics = Metrics {
            open_connections: 0,
            closes: [0, 0, 0, 0, 0, 0, 0],
            registrations: [0, 0, 0],
            scrapes: [0, 0, 0, 0, 0, 0, 0],
            retries: 0,
        };
        assert(metrics@ =~= MetricsView::zero());
        metrics
    }
}

/// The two comment lines that introduce a series.
pub open spec fn header_text(name: Seq<char>, kind: Seq<char>, help: Seq<char>) -> Seq<char> {
    "# HELP "@ + name + " "@ + help + "\n"@ + "# TYPE "@ + name + " "@ + kind + "\n"@
}

/// The line of a sample without labels.
pub open spec fn sample(name: Seq<char>, value: nat) -> Seq<char> {
    name + " "@ + decimal(value) + "\n"@
}

/// The line of a sample with one label.
pub open spec fn labelled(
    name: Seq<char>,
    key: Seq<char>,
    label: Seq<char>,
    value: nat,
) -> Seq<char> {
    name + "{"@ + key + "=\""@ + label + "\"} "@ + decimal(value) + "\n"@
}

/// The samples of `name` for the first `n` classes of wire versions.
pub open spec fn version_samples(name: Seq<char>, counts: Seq<u64>, n: int) -> Seq<char>
    decreases n,
{
    if n <= 0 {
        seq![]
    } else {
        version_samples(name, counts, n - 1) + labelled(
            name,
            "version"@,
            version_name(n - 1),
            counts[n - 1] as nat,
        )
    }
}

/// The samples of ended connections for the first `n` reasons.
pub open spec fn close_samples(counts: Seq<u64>, n: int) -> Seq<char>
    decreases n,
{
    if n <= 0 {
        seq![]
    } else {
        close_samples(counts, n - 1) + labelled(
            "proxy_websocket_closes_total"@,
            "reason"@,
            CloseReason::listed()[n - 1].name(),
            counts[n - 1] as nat,
        )
    }
}

/// The samples of finished scrapes for the first `n` outcomes.
pub open spec fn scrape_samples(counts: Seq<u64>, n: int) -> Seq<char>
    decreases n,
{
    if n <= 0 {
        seq![]
    } else {
        scrape_samples(counts, n - 1) + labelled(
            "proxy_scrapes_total"@,
            "result"@,
            ScrapeOutcome::listed()[n - 1].name(),
            counts[n - 1] as nat,
        )
    }
}

/// The series about the build and the connections.
pub open spec fn connection_series(metrics: MetricsView) -> Seq<char> {
    header_text("proxy_build_info"@, "gauge"@, "Server build version."@) + labelled(
        "proxy_build_info"@,
        "version"@,
        VERSION@,
        1,
    ) + header_text(
        "proxy_websocket_connections"@,
        "gauge"@,
        "Open WebSocket connections, registered or not."@,
    ) + sample(
        "proxy_websocket_connections"@,
        (if metrics.open_connections < 0 {
            0
        } else {
            metrics.open_connections as nat
        }),
    )
}

/// The series about the registered workers.
pub open spec fn worker_series(metrics: MetricsView, workers_by_version: Seq<u64>) -> Seq<char> {
    header_text(
        "proxy_workers"@,
        "gauge"@,
        "Registered worker connections by wire version."@,
    ) + version_samples("proxy_workers"@, workers_by_version, 3) + header_text(
        "proxy_worker_registrations_total"@,
        "counter"@,
        "Worker registrations by wire version."@,
    ) + version_samples("proxy_worker_registrations_total"@, metrics.registrations, 3)
}

/// The series that count by reason and by outcome.
pub open spec fn outcome_series(metrics: MetricsView) -> Seq<char> {
    header_text(
        "proxy_websocket_closes_total"@,
        "counter"@,
        "Ended WebSocket connections by reason."@,
    ) + close_samples(metrics.closes, 7) + header_text(
        "proxy_scrapes_total"@,
        "counter"@,
        "Finished scrape requests by outcome."@,
    ) + scrape_samples(metrics.scrapes, 7)
}

/// The series about retries and the current request state.
pub open spec fn request_series(metrics: MetricsView, pending: nat, in_flight: nat) -> Seq<char> {
    header_text(
        "proxy_scrape_retries_total"@,
        "counter"@,
        "Scrape dispatches retried after the selected worker disconnected."@,
    ) + sample("proxy_scrape_retries_total"@, metrics.retries as nat) + header_text(
        "proxy_pending_requests"@,
        "gauge"@,
        "Scrape requests waiting for a ready answer or a response."@,
    ) + sample("proxy_pending_requests"@, pending) + header_text(
        "proxy_in_flight_requests"@,
        "gauge"@,
        "Admitted scrape requests holding global capacity."@,
    ) + sample("proxy_in_flight_requests"@, in_flight)
}

/// The whole text that is exposed.
pub open spec fn exposition(metrics: MetricsView, snapshot: Snapshot) -> Seq<char> {
    connection_series(metrics) + worker_series(metrics, snapshot.workers_by_version@)
        + outcome_series(metrics) + request_series(
        metrics,
        snapshot.pending as nat,
        snapshot.in_flight as nat,
    )
}

/// Appends the two comment lines that introduce a series.
pub fn header(out: &mut String, name: &str, kind: &str, help: &str)
    ensures
        final(out)@ == old(out)@ + header_text(name@, kind@, help@),
{
    out.append("# HELP ");
    out.append(name);
    out.append(" ");
    out.append(help);
    out.append("\n");
    out.append("# TYPE ");
    out.append(name);
    out.append(" ");
    out.append(kind);
    out.append("\n");
    assert(out@ =~= old(out)@ + header_text(name@, kind@, help@));
}

/// Appends the line of a sample without labels.
fn push_sample(out: &mut String, name: &str, value: u64)
    ensures
        final(out)@ == old(out)@ + sample(name@, value as nat),
{
    out.append(name);
    out.append(" ");
    push_decimal(out, value);
    out.append("\n");
    assert(out@ =~= old(out)@ + sample(name@, value as nat));
}

/// Appends the line of a sample with one label.
fn push_labelled(out: &mut String, name: &str, key: &str, label: &str, value: u64)
    ensures
        final(out)@ == old(out)@ + labelled(name@, key@, label@, value as nat),
{
    out.append(name);
    out.append("{");
    out.append(key);
    out.append("=\"");
    out.append(label);
    out.append("\"} ");
    push_decimal(out, value);
    out.append("\n");
    assert(out@ =~= old(out)@ + labelled(name@, key@, label@, value as nat));
}

/// Appends the samples of `name` for every class of wire versions.
fn push_versions(out: &mut String, name: &str, counts: &[u64; 3])
    ensures
        final(out)@ == old(out)@ + version_samples(name@, counts@, 3),
{
    let ghost before = out@;
    for i in 0..3usize
        invariant
            out@ == before + version_samples(name@, counts@, i as int),
    {
        push_labelled(out, name, "version", version_label(i), counts[i]);
        assert(out@ =~= before + version_samples(name@, counts@, i + 1));
    }
}

impl Metrics {
    pub fn connection_opened(&mut self)
        ensures
            final(self)@ == old(self)@.opened(),
    {
        self.open_connections = self.open_connections.wrapping_add(1);
    }

    pub fn connection_closed(&mut self, reason: CloseReason)
        ensures
            final(self)@ == old(self)@.closed(reason),
    {
        self.open_connections = self.open_connections.wrapping_sub(1);
        let index = reason.index();
        self.closes[index] = self.closes[index].wrapping_add(1);
    }

    pub fn worker_registered(&mut self, version: u16)
        ensures
            final(self)@ == old(self)@.registered(version),
    {
        let index = version_index(version);
        self.registrations[index] = self.registrations[index].wrapping_add(1);
    }

    pub fn scrape_finished(&mut self, outcome: ScrapeOutcome)
        ensures
            final(self)@ == old(self)@.finished(outcome),
    {
        let index = outcome.index();
        self.scrapes[index] = self.scrapes[index].wrapping_add(1);
    }

    pub fn dispatch_retried(&mut self)
        ensures
            final(self)@ == old(self)@.retried(),
    {
        self.retries = self.retries.wrapping_add(1);
    }

    /// How many connections ended for `reason`.
    pub fn closes(&self, reason: CloseReason) -> (count: u64)
        ensures
            count == self@.closes[reason.position()],
    {
        self.closes[reason.index()]
    }

    /// How many scrapes ended with `outcome`.
    pub fn scrapes(&self, outcome: ScrapeOutcome) -> (count: u64)
        ensures
            count == self@.scrapes[outcome.position()],
    {
        self.scrapes[outcome.index()]
    }

    /// How many dispatches were retried.
    pub fn retries(&self) -> (count: u64)
        ensures
            count == self@.retries,
    {
        self.retries
    }

    /// Appends the samples of ended connections for every reason.
    fn push_closes(&self, out: &mut String)
        ensures
            final(out)@ == old(out)@ + close_samples(self@.closes, 7),
    {
        let ghost before = out@;
        let reasons = CloseReason::all();
        for i in 0..7usize
            invariant
                reasons@ == CloseReason::listed(),
                out@ == before + close_samples(self@.closes, i as int),
        {
            let reason = reasons[i];
            push_labelled(
                out,
                "proxy_websocket_closes_total",
                "reason",
                reason.label(),
                self.closes[reason.index()],
            );
            assert(reason.position() == i);
            assert(out@ =~= before + close_samples(self@.closes, i + 1));
        }
    }

    /// Appends the samples of finished scrapes for every outcome.
    fn push_scrapes(&self, out: &mut String)
        ensures
            final(out)@ == old(out)@ + scrape_samples(self@.scrapes, 7),
    {
        let ghost before = out@;
        let outcomes = ScrapeOutcome::all();
        for i in 0..7usize
            invariant
                outcomes@ == ScrapeOutcome::listed(),
                out@ == before + scrape_samples(self@.scrapes, i as int),
        {
            let outcome = outcomes[i];
            push_labelled(
                out,
                "proxy_scrapes_total",
                "result",
                outcome.label(),
                self.scrapes[outcome.index()],
            );
            assert(outcome.position() == i);
            assert(out@ =~= before + scrape_samples(self@.scrapes, i + 1));
        }
    }

    /// Appends the series about the build and the connections.
    fn push_connection_series(&self, out: &mut String)
        ensures
            final(out)@ == old(out)@ + connection_series(self@),
    {
        header(out, "proxy_build_info", "gauge", "Server build version.");
        push_labelled(out, "proxy_build_info", "version", VERSION, 1);
        header(
            out,
            "proxy_websocket_connections",
            "gauge",
            "Open WebSocket connections, registered or not.",
        );
        let open: u64 = if self.open_connections < 0 {
            0
        } else {
            self.open_connections as u64
        };
        push_sample(out, "proxy_websocket_connections", open);
        proof {
            lemma_regroup(
                old(out)@,
                header_text("proxy_build_info"@, "gauge"@, "Server build version."@),
                labelled("proxy_build_info"@, "version"@, VERSION@, 1),
                header_text(
                    "proxy_websocket_connections"@,
                    "gauge"@,
                    "Open WebSocket connections, registered or not."@,
                ),
                sample("proxy_websocket_connections"@, open as nat),
            );
        }
    }

    /// Appends the series about the registered workers.
    fn push_worker_series(&self, out: &mut String, workers_by_version: &[u64; 3])
        ensures
            final(out)@ == old(out)@ + worker_series(self@, workers_by_version@),
    {
        header(out, "proxy_workers", "gauge", "Registered worker connections by wire version.");
        push_versions(out, "proxy_workers", workers_by_version);
        header(
            out,
            "proxy_worker_registrations_total",
            "counter",
            "Worker registrations by wire version.",
        );
        push_versions(out, "proxy_worker_registrations_total", &self.registrations);
        proof {
            lemma_regroup(
                old(out)@,
                header_text(
                    "proxy_workers"@,
                    "gauge"@,
                    "Registered worker connections by wire version."@,
                ),
                version_samples("proxy_workers"@, workers_by_version@, 3),
                header_text(
                    "proxy_worker_registrations_total"@,
                    "counter"@,
                    "Worker registrations by wire version."@,
                ),
                version_samples("proxy_worker_registrations_total"@, self@.registrations, 3),
            );
        }
    }

    /// Appends the series that count by reason and by outcome.
    fn push_outcome_series(&self, out: &mut String)
        ensures
            final(out)@ == old(out)@ + outcome_series(self@),
    {
        header(
            out,
            "proxy_websocket_closes_total",
            "counter",
            "Ended WebSocket connections by reason.",
        );
        self.push_closes(out);
        header(out, "proxy_scrapes_total", "counter", "Finished scrape requests by outcome.");
        self.push_scrapes(out);
        proof {
            lemma_regroup(
                old(out)@,
                header_text(
                    "proxy_websocket_closes_total"@,
                    "counter"@,
                    "Ended WebSocket connections by reason."@,
                ),
                close_samples(self@.closes, 7),
                header_text(
                    "proxy_scrapes_total"@,
                    "counter"@,
                    "Finished scrape requests by outcome."@,
                ),
                scrape_samples(self@.scrapes, 7),
            );
        }
    }

    /// Appends the series about retries and the current request state.
    fn push_request_series(&self, out: &mut String, pending: usize, in_flight: usize)
        ensures
            final(out)@ == old(out)@ + request_series(self@, pending as nat, in_flight as nat),
    {
        header(
            out,
            "proxy_scrape_retries_total",
            "counter",
            "Scrape dispatches retried after the selected worker disconnected.",
        );
        push_sample(out, "proxy_scrape_retries_total", self.retries);
        let ghost retries = header_text(
            "proxy_scrape_retries_total"@,
            "counter"@,
            "Scrape dispatches retried after the selected worker disconnected."@,
        ) + sample("proxy_scrape_retries_total"@, self@.retries as nat);
        assert(out@ =~= old(out)@ + retries);
        header(
            out,
            "proxy_pending_requests",
            "gauge",
            "Scrape requests waiting for a ready answer or a response.",
        );
        push_sample(out, "proxy_pending_requests", pending as u64);
        header(
            out,
            "proxy_in_flight_requests",
            "gauge",
            "Admitted scrape requests holding global capacity.",
        );
        push_sample(out, "proxy_in_flight_requests", in_flight as u64);
        proof {
            let a = header_text(
                "proxy_pending_requests"@,
                "gauge"@,
                "Scrape requests waiting for a ready answer or a response."@,
            );
            let b = sample("proxy_pending_requests"@, pending as nat);
            let c = header_text(
                "proxy_in_flight_requests"@,
                "gauge"@,
                "Admitted scrape requests holding global capacity."@,
            );
            let d = sample("proxy_in_flight_requests"@, in_flight as nat);
            lemma_regroup(old(out)@ + retries, a, b, c, d);
            lemma_regroup(retries, a, b, c, d);
            assert((old(out)@ + retries) + (a + b + c + d) =~= old(out)@ + (retries + (a + b + c
                + d)));
        }
    }

    /// Renders the Prometheus text exposition format.
    pub fn render(&self, snapshot: &Snapshot) -> (text: String)
        ensures
            text@ == exposition(self@, *snapshot),
    {
        let mut out = String::new();
        self.push_connection_series(&mut out);
        assert(out@ =~= connection_series(self@));
        self.push_worker_series(&mut out, &snapshot.workers_by_version);
        self.push_outcome_series(&mut out);
        self.push_request_series(&mut out, snapshot.pending, snapshot.in_flight);
        out
    }
}

/// Four pieces that are appended one by one are appended together.
proof fn lemma_regroup(
    before: Seq<char>,
    a: Seq<char>,
    b: Seq<char>,
    c: Seq<char>,
    d: Seq<char>,
)
    ensures
        before + a + b + c + d == before + (a + b + c + d),
{
    assert(before + a + b + c + d =~= before + (a + b + c + d));
}

} // verus!
