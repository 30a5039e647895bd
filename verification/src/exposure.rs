//! What the exposition of the metrics says, line by line.

use crate::metrics::{
    close_samples, exposition, header_text, labelled, sample, scrape_samples, version_class,
    version_name, version_samples, CloseReason, MetricsView, ScrapeOutcome, Snapshot, VERSION,
};
use crate::notation::a_number_is_written_in_one_way;
use crate::text::decimal;
use vstd::prelude::*;

verus! {

/// Workers of wire versions 1, 2 and 3 are counted each under a class of their own, whose label is
/// the decimal notation of the version; an older version counts as 1 and a newer one as 3. No two
/// classes share a label.
pub proof fn wire_versions_are_labelled_by_their_number(version: u16, class: int, other: int)
    requires
        0 <= class < 3,
        0 <= other < 3,
    ensures
        version_name(class) == decimal((class + 1) as nat),
        class != other ==> version_name(class) != version_name(other),
        1 <= version <= 3 ==> version_class(version) + 1 == version && version_name(
            version_class(version),
        ) == decimal(version as nat),
        version == 0 ==> version_class(version) == version_class(1),
        version > 3 ==> version_class(version) == version_class(3),
{
    reveal_strlit("1");
    reveal_strlit("2");
    reveal_strlit("3");
    assert("1"@ =~= decimal(1));
    assert("2"@ =~= decimal(2));
    assert("3"@ =~= decimal(3));
    a_number_is_written_in_one_way((class + 1) as nat, (other + 1) as nat);
}

/// Every reason stands once in the list of all, at its own place, and under a name that no other
/// has.
pub proof fn each_reason_has_a_name_of_its_own(one: CloseReason, other: CloseReason)
    ensures
        CloseReason::listed().len() == 7,
        0 <= one.position() < 7,
        CloseReason::listed()[one.position()] == one,
        one != other ==> one.position() != other.position(),
        one != other ==> one.name() != other.name(),
{
    reveal_strlit("client_close");
    reveal_strlit("reset");
    reveal_strlit("receive_error");
    reveal_strlit("heartbeat_timeout");
    reveal_strlit("send_failed");
    reveal_strlit("replaced");
    reveal_strlit("shutdown");
    assert("client_close"@.len() == 12);
    assert("reset"@.len() == 5);
    assert("receive_error"@.len() == 13);
    assert("heartbeat_timeout"@.len() == 17);
    assert("send_failed"@.len() == 11);
    assert("replaced"@.len() == 8);
    assert("shutdown"@.len() == 8);
    assert("replaced"@[0] != "shutdown"@[0]);
}

/// Every outcome stands once in the list of all, at its own place, and under a name that no other
/// has.
pub proof fn each_outcome_has_a_name_of_its_own(one: ScrapeOutcome, other: ScrapeOutcome)
    ensures
        ScrapeOutcome::listed().len() == 7,
        0 <= one.position() < 7,
        ScrapeOutcome::listed()[one.position()] == one,
        one != other ==> one.position() != other.position(),
        one != other ==> one.name() != other.name(),
{
    reveal_strlit("proxied");
    reveal_strlit("unknown_instance");
    reveal_strlit("capacity");
    reveal_strlit("no_idle_worker");
    reveal_strlit("ready_timeout");
    reveal_strlit("worker_lost");
    reveal_strlit("response_timeout");
    assert("proxied"@.len() == 7);
    assert("unknown_instance"@.len() == 16);
    assert("capacity"@.len() == 8);
    assert("no_idle_worker"@.len() == 14);
    assert("ready_timeout"@.len() == 13);
    assert("worker_lost"@.len() == 11);
    assert("response_timeout"@.len() == 16);
    assert("unknown_instance"@[0] != "response_timeout"@[0]);
}

proof fn lemma_build_info_header()
    ensures
        header_text(
            "proxy_build_info"@,
            "gauge"@,
            "Server build version."@,
        ) == "# HELP proxy_build_info "@
            + "Server build version.\n"@
            + "# TYPE proxy_build_info gauge\n"@,
{
    reveal_strlit("# HELP ");
    reveal_strlit("proxy_build_info");
    reveal_strlit(" ");
    reveal_strlit("Server build version.");
    reveal_strlit("\n");
    reveal_strlit("# TYPE ");
    reveal_strlit("gauge");
    reveal_strlit("# HELP proxy_build_info ");
    reveal_strlit("Server build version.\n");
    reveal_strlit("# TYPE proxy_build_info gauge\n");
}

proof fn lemma_websocket_connections_header()
    ensures
        header_text(
            "proxy_websocket_connections"@,
            "gauge"@,
            "Open WebSocket connections, registered or not."@,
        ) == "# HELP proxy_websocket_connections "@
            + "Open WebSocket connections, registered or not.\n"@
            + "# TYPE proxy_websocket_connections gauge\n"@,
{
    reveal_strlit("# HELP ");
    reveal_strlit("proxy_websocket_connections");
    reveal_strlit(" ");
    reveal_strlit("Open WebSocket connections, registered or not.");
    reveal_strlit("\n");
    reveal_strlit("# TYPE ");
    reveal_strlit("gauge");
    reveal_strlit("# HELP proxy_websocket_connections ");
    reveal_strlit("Open WebSocket connections, registered or not.\n");
    reveal_strlit("# TYPE proxy_websocket_connections gauge\n");
}

proof fn lemma_workers_header()
    ensures
        header_text(
            "proxy_workers"@,
            "gauge"@,
            "Registered worker connections by wire version."@,
        ) == "# HELP proxy_workers "@
            + "Registered worker connections by wire version.\n"@
            + "# TYPE proxy_workers gauge\n"@,
{
    reveal_strlit("# HELP ");
    reveal_strlit("proxy_workers");
    reveal_strlit(" ");
    reveal_strlit("Registered worker connections by wire version.");
    reveal_strlit("\n");
    reveal_strlit("# TYPE ");
    reveal_strlit("gauge");
    reveal_strlit("# HELP proxy_workers ");
    reveal_strlit("Registered worker connections by wire version.\n");
    reveal_strlit("# TYPE proxy_workers gauge\n");
}

proof fn lemma_worker_registrations_total_header()
    ensures
        header_text(
            "proxy_worker_registrations_total"@,
            "counter"@,
            "Worker registrations by wire version."@,
        ) == "# HELP proxy_worker_registrations_total "@
            + "Worker registrations by wire version.\n"@
            + "# TYPE proxy_worker_registrations_total counter\n"@,
{
    reveal_strlit("# HELP ");
    reveal_strlit("proxy_worker_registrations_total");
    reveal_strlit(" ");
    reveal_strlit("Worker registrations by wire version.");
    reveal_strlit("\n");
    reveal_strlit("# TYPE ");
    reveal_strlit("counter");
    reveal_strlit("# HELP proxy_worker_registrations_total ");
    reveal_strlit("Worker registrations by wire version.\n");
    reveal_strlit("# TYPE proxy_worker_registrations_total counter\n");
}

proof fn lemma_websocket_closes_total_header()
    ensures
        header_text(
            "proxy_websocket_closes_total"@,
            "counter"@,
            "Ended WebSocket connections by reason."@,
        ) == "# HELP proxy_websocket_closes_total "@
            + "Ended WebSocket connections by reason.\n"@
            + "# TYPE proxy_websocket_closes_total counter\n"@,
{
    reveal_strlit("# HELP ");
    reveal_strlit("proxy_websocket_closes_total");
    reveal_strlit(" ");
    reveal_strlit("Ended WebSocket connections by reason.");
    reveal_strlit("\n");
    reveal_strlit("# TYPE ");
    reveal_strlit("counter");
    reveal_strlit("# HELP proxy_websocket_closes_total ");
    reveal_strlit("Ended WebSocket connections by reason.\n");
    reveal_strlit("# TYPE proxy_websocket_closes_total counter\n");
}

proof fn lemma_scrapes_total_header()
    ensures
        header_text(
            "proxy_scrapes_total"@,
            "counter"@,
            "Finished scrape requests by outcome."@,
        ) == "# HELP proxy_scrapes_total "@
            + "Finished scrape requests by outcome.\n"@
            + "# TYPE proxy_scrapes_total counter\n"@,
{
    reveal_strlit("# HELP ");
    reveal_strlit("proxy_scrapes_total");
    reveal_strlit(" ");
    reveal_strlit("Finished scrape requests by outcome.");
    reveal_strlit("\n");
    reveal_strlit("# TYPE ");
    reveal_strlit("counter");
    reveal_strlit("# HELP proxy_scrapes_total ");
    reveal_strlit("Finished scrape requests by outcome.\n");
    reveal_strlit("# TYPE proxy_scrapes_total counter\n");
}

proof fn lemma_scrape_retries_total_header()
    ensures
        header_text(
            "proxy_scrape_retries_total"@,
            "counter"@,
            "Scrape dispatches retried after the selected worker disconnected."@,
        ) == "# HELP proxy_scrape_retries_total "@
            + "Scrape dispatches retried after the selected worker disconnected.\n"@
            + "# TYPE proxy_scrape_retries_total counter\n"@,
{
    reveal_strlit("# HELP ");
    reveal_strlit("proxy_scrape_retries_total");
    reveal_strlit(" ");
    reveal_strlit("Scrape dispatches retried after the selected worker disconnected.");
    reveal_strlit("\n");
    reveal_strlit("# TYPE ");
    reveal_strlit("counter");
    reveal_strlit("# HELP proxy_scrape_retries_total ");
    reveal_strlit("Scrape dispatches retried after the selected worker disconnected.\n");
    reveal_strlit("# TYPE proxy_scrape_retries_total counter\n");
}

proof fn lemma_pending_requests_header()
    ensures
        header_text(
            "proxy_pending_requests"@,
            "gauge"@,
            "Scrape requests waiting for a ready answer or a response."@,
        ) == "# HELP proxy_pending_requests "@
            + "Scrape requests waiting for a ready answer or a response.\n"@
            + "# TYPE proxy_pending_requests gauge\n"@,
{
    reveal_strlit("# HELP ");
    reveal_strlit("proxy_pending_requests");
    reveal_strlit(" ");
    reveal_strlit("Scrape requests waiting for a ready answer or a response.");
    reveal_strlit("\n");
    reveal_strlit("# TYPE ");
    reveal_strlit("gauge");
    reveal_strlit("# HELP proxy_pending_requests ");
    reveal_strlit("Scrape requests waiting for a ready answer or a response.\n");
    reveal_strlit("# TYPE proxy_pending_requests gauge\n");
}

proof fn lemma_in_flight_requests_header()
    ensures
        header_text(
            "proxy_in_flight_requests"@,
            "gauge"@,
            "Admitted scrape requests holding global capacity."@,
        ) == "# HELP proxy_in_flight_requests "@
            + "Admitted scrape requests holding global capacity.\n"@
            + "# TYPE proxy_in_flight_requests gauge\n"@,
{
    reveal_strlit("# HELP ");
    reveal_strlit("proxy_in_flight_requests");
    reveal_strlit(" ");
    reveal_strlit("Admitted scrape requests holding global capacity.");
    reveal_strlit("\n");
    reveal_strlit("# TYPE ");
    reveal_strlit("gauge");
    reveal_strlit("# HELP proxy_in_flight_requests ");
    reveal_strlit("Admitted scrape requests holding global capacity.\n");
    reveal_strlit("# TYPE proxy_in_flight_requests gauge\n");
}

proof fn lemma_workers_lines(value: nat)
    ensures
        labelled("proxy_workers"@, "version"@, "1"@, value)
            == "proxy_workers{version=\"1\"} "@
            + decimal(value) + "\n"@,
        labelled("proxy_workers"@, "version"@, "2"@, value)
            == "proxy_workers{version=\"2\"} "@
            + decimal(value) + "\n"@,
        labelled("proxy_workers"@, "version"@, "3"@, value)
            == "proxy_workers{version=\"3\"} "@
            + decimal(value) + "\n"@,
{
    reveal_strlit("proxy_workers");
    reveal_strlit("{");
    reveal_strlit("version");
    reveal_strlit("=\"");
    reveal_strlit("\"} ");
    reveal_strlit("1");
    reveal_strlit("proxy_workers{version=\"1\"} ");
    reveal_strlit("2");
    reveal_strlit("proxy_workers{version=\"2\"} ");
    reveal_strlit("3");
    reveal_strlit("proxy_workers{version=\"3\"} ");
    assert("proxy_workers"@ + "{"@ + "version"@ + "=\""@ + "1"@
        + "\"} "@ =~= "proxy_workers{version=\"1\"} "@);
    assert("proxy_workers"@ + "{"@ + "version"@ + "=\""@ + "2"@
        + "\"} "@ =~= "proxy_workers{version=\"2\"} "@);
    assert("proxy_workers"@ + "{"@ + "version"@ + "=\""@ + "3"@
        + "\"} "@ =~= "proxy_workers{version=\"3\"} "@);
}

proof fn lemma_worker_registrations_total_lines(value: nat)
    ensures
        labelled("proxy_worker_registrations_total"@, "version"@, "1"@, value)
            == "proxy_worker_registrations_total{version=\"1\"} "@
            + decimal(value) + "\n"@,
        labelled("proxy_worker_registrations_total"@, "version"@, "2"@, value)
            == "proxy_worker_registrations_total{version=\"2\"} "@
            + decimal(value) + "\n"@,
        labelled("proxy_worker_registrations_total"@, "version"@, "3"@, value)
            == "proxy_worker_registrations_total{version=\"3\"} "@
            + decimal(value) + "\n"@,
{
    reveal_strlit("proxy_worker_registrations_total");
    reveal_strlit("{");
    reveal_strlit("version");
    reveal_strlit("=\"");
    reveal_strlit("\"} ");
    reveal_strlit("1");
    reveal_strlit("proxy_worker_registrations_total{version=\"1\"} ");
    reveal_strlit("2");
    reveal_strlit("proxy_worker_registrations_total{version=\"2\"} ");
    reveal_strlit("3");
    reveal_strlit("proxy_worker_registrations_total{version=\"3\"} ");
    assert("proxy_worker_registrations_total"@ + "{"@ + "version"@ + "=\""@ + "1"@
        + "\"} "@ =~= "proxy_worker_registrations_total{version=\"1\"} "@);
    assert("proxy_worker_registrations_total"@ + "{"@ + "version"@ + "=\""@ + "2"@
        + "\"} "@ =~= "proxy_worker_registrations_total{version=\"2\"} "@);
    assert("proxy_worker_registrations_total"@ + "{"@ + "version"@ + "=\""@ + "3"@
        + "\"} "@ =~= "proxy_worker_registrations_total{version=\"3\"} "@);
}

proof fn lemma_websocket_closes_total_lines(value: nat)
    ensures
        labelled("proxy_websocket_closes_total"@, "reason"@, "client_close"@, value)
            == "proxy_websocket_closes_total{reason=\"client_close\"} "@
            + decimal(value) + "\n"@,
        labelled("proxy_websocket_closes_total"@, "reason"@, "reset"@, value)
            == "proxy_websocket_closes_total{reason=\"reset\"} "@
            + decimal(value) + "\n"@,
        labelled("proxy_websocket_closes_total"@, "reason"@, "receive_error"@, value)
            == "proxy_websocket_closes_total{reason=\"receive_error\"} "@
            + decimal(value) + "\n"@,
        labelled("proxy_websocket_closes_total"@, "reason"@, "heartbeat_timeout"@, value)
            == "proxy_websocket_closes_total{reason=\"heartbeat_timeout\"} "@
            + decimal(value) + "\n"@,
        labelled("proxy_websocket_closes_total"@, "reason"@, "send_failed"@, value)
            == "proxy_websocket_closes_total{reason=\"send_failed\"} "@
            + decimal(value) + "\n"@,
        labelled("proxy_websocket_closes_total"@, "reason"@, "replaced"@, value)
            == "proxy_websocket_closes_total{reason=\"replaced\"} "@
            + decimal(value) + "\n"@,
        labelled("proxy_websocket_closes_total"@, "reason"@, "shutdown"@, value)
            == "proxy_websocket_closes_total{reason=\"shutdown\"} "@
            + decimal(value) + "\n"@,
{
    reveal_strlit("proxy_websocket_closes_total");
    reveal_strlit("{");
    reveal_strlit("reason");
    reveal_strlit("=\"");
    reveal_strlit("\"} ");
    reveal_strlit("client_close");
    reveal_strlit("proxy_websocket_closes_total{reason=\"client_close\"} ");
    reveal_strlit("reset");
    reveal_strlit("proxy_websocket_closes_total{reason=\"reset\"} ");
    reveal_strlit("receive_error");
    reveal_strlit("proxy_websocket_closes_total{reason=\"receive_error\"} ");
    reveal_strlit("heartbeat_timeout");
    reveal_strlit("proxy_websocket_closes_total{reason=\"heartbeat_timeout\"} ");
    reveal_strlit("send_failed");
    reveal_strlit("proxy_websocket_closes_total{reason=\"send_failed\"} ");
    reveal_strlit("replaced");
    reveal_strlit("proxy_websocket_closes_total{reason=\"replaced\"} ");
    reveal_strlit("shutdown");
    reveal_strlit("proxy_websocket_closes_total{reason=\"shutdown\"} ");
    assert("proxy_websocket_closes_total"@ + "{"@ + "reason"@ + "=\""@ + "client_close"@
        + "\"} "@ =~= "proxy_websocket_closes_total{reason=\"client_close\"} "@);
    assert("proxy_websocket_closes_total"@ + "{"@ + "reason"@ + "=\""@ + "reset"@
        + "\"} "@ =~= "proxy_websocket_closes_total{reason=\"reset\"} "@);
    assert("proxy_websocket_closes_total"@ + "{"@ + "reason"@ + "=\""@ + "receive_error"@
        + "\"} "@ =~= "proxy_websocket_closes_total{reason=\"receive_error\"} "@);
    assert("proxy_websocket_closes_total"@ + "{"@ + "reason"@ + "=\""@ + "heartbeat_timeout"@
        + "\"} "@ =~= "proxy_websocket_closes_total{reason=\"heartbeat_timeout\"} "@);
    assert("proxy_websocket_closes_total"@ + "{"@ + "reason"@ + "=\""@ + "send_failed"@
        + "\"} "@ =~= "proxy_websocket_closes_total{reason=\"send_failed\"} "@);
    assert("proxy_websocket_closes_total"@ + "{"@ + "reason"@ + "=\""@ + "replaced"@
        + "\"} "@ =~= "proxy_websocket_closes_total{reason=\"replaced\"} "@);
    assert("proxy_websocket_closes_total"@ + "{"@ + "reason"@ + "=\""@ + "shutdown"@
        + "\"} "@ =~= "proxy_websocket_closes_total{reason=\"shutdown\"} "@);
}

proof fn lemma_scrapes_total_lines(value: nat)
    ensures
        labelled("proxy_scrapes_total"@, "result"@, "proxied"@, value)
            == "proxy_scrapes_total{result=\"proxied\"} "@
            + decimal(value) + "\n"@,
        labelled("proxy_scrapes_total"@, "result"@, "unknown_instance"@, value)
            == "proxy_scrapes_total{result=\"unknown_instance\"} "@
            + decimal(value) + "\n"@,
        labelled("proxy_scrapes_total"@, "result"@, "capacity"@, value)
            == "proxy_scrapes_total{result=\"capacity\"} "@
            + decimal(value) + "\n"@,
        labelled("proxy_scrapes_total"@, "result"@, "no_idle_worker"@, value)
            == "proxy_scrapes_total{result=\"no_idle_worker\"} "@
            + decimal(value) + "\n"@,
        labelled("proxy_scrapes_total"@, "result"@, "ready_timeout"@, value)
            == "proxy_scrapes_total{result=\"ready_timeout\"} "@
            + decimal(value) + "\n"@,
        labelled("proxy_scrapes_total"@, "result"@, "worker_lost"@, value)
            == "proxy_scrapes_total{result=\"worker_lost\"} "@
            + decimal(value) + "\n"@,
        labelled("proxy_scrapes_total"@, "result"@, "response_timeout"@, value)
            == "proxy_scrapes_total{result=\"response_timeout\"} "@
            + decimal(value) + "\n"@,
{
    reveal_strlit("proxy_scrapes_total");
    reveal_strlit("{");
    reveal_strlit("result");
    reveal_strlit("=\"");
    reveal_strlit("\"} ");
    reveal_strlit("proxied");
    reveal_strlit("proxy_scrapes_total{result=\"proxied\"} ");
    reveal_strlit("unknown_instance");
    reveal_strlit("proxy_scrapes_total{result=\"unknown_instance\"} ");
    reveal_strlit("capacity");
    reveal_strlit("proxy_scrapes_total{result=\"capacity\"} ");
    reveal_strlit("no_idle_worker");
    reveal_strlit("proxy_scrapes_total{result=\"no_idle_worker\"} ");
    reveal_strlit("ready_timeout");
    reveal_strlit("proxy_scrapes_total{result=\"ready_timeout\"} ");
    reveal_strlit("worker_lost");
    reveal_strlit("proxy_scrapes_total{result=\"worker_lost\"} ");
    reveal_strlit("response_timeout");
    reveal_strlit("proxy_scrapes_total{result=\"response_timeout\"} ");
    assert("proxy_scrapes_total"@ + "{"@ + "result"@ + "=\""@ + "proxied"@
        + "\"} "@ =~= "proxy_scrapes_total{result=\"proxied\"} "@);
    assert("proxy_scrapes_total"@ + "{"@ + "result"@ + "=\""@ + "unknown_instance"@
        + "\"} "@ =~= "proxy_scrapes_total{result=\"unknown_instance\"} "@);
    assert("proxy_scrapes_total"@ + "{"@ + "result"@ + "=\""@ + "capacity"@
        + "\"} "@ =~= "proxy_scrapes_total{result=\"capacity\"} "@);
    assert("proxy_scrapes_total"@ + "{"@ + "result"@ + "=\""@ + "no_idle_worker"@
        + "\"} "@ =~= "proxy_scrapes_total{result=\"no_idle_worker\"} "@);
    assert("proxy_scrapes_total"@ + "{"@ + "result"@ + "=\""@ + "ready_timeout"@
        + "\"} "@ =~= "proxy_scrapes_total{result=\"ready_timeout\"} "@);
    assert("proxy_scrapes_total"@ + "{"@ + "result"@ + "=\""@ + "worker_lost"@
        + "\"} "@ =~= "proxy_scrapes_total{result=\"worker_lost\"} "@);
    assert("proxy_scrapes_total"@ + "{"@ + "result"@ + "=\""@ + "response_timeout"@
        + "\"} "@ =~= "proxy_scrapes_total{result=\"response_timeout\"} "@);
}

proof fn lemma_build_info_line()
    ensures
        labelled("proxy_build_info"@, "version"@, VERSION@, 1)
            == "proxy_build_info{version=\"3.0.1\"} 1\n"@,
{
    reveal_strlit("proxy_build_info");
    reveal_strlit("{");
    reveal_strlit("version");
    reveal_strlit("=\"");
    reveal_strlit("3.0.1");
    reveal_strlit("\"} ");
    reveal_strlit("\n");
    reveal_strlit("proxy_build_info{version=\"3.0.1\"} 1\n");
    assert(decimal(1) =~= seq!['1']);
    assert(labelled("proxy_build_info"@, "version"@, VERSION@, 1)
        =~= "proxy_build_info{version=\"3.0.1\"} 1\n"@);
}

proof fn lemma_websocket_connections_line(value: nat)
    ensures
        sample("proxy_websocket_connections"@, value)
            == "proxy_websocket_connections "@ + decimal(value) + "\n"@,
{
    reveal_strlit("proxy_websocket_connections");
    reveal_strlit(" ");
    reveal_strlit("proxy_websocket_connections ");
    assert("proxy_websocket_connections"@ + " "@ =~= "proxy_websocket_connections "@);
}

proof fn lemma_scrape_retries_total_line(value: nat)
    ensures
        sample("proxy_scrape_retries_total"@, value)
            == "proxy_scrape_retries_total "@ + decimal(value) + "\n"@,
{
    reveal_strlit("proxy_scrape_retries_total");
    reveal_strlit(" ");
    reveal_strlit("proxy_scrape_retries_total ");
    assert("proxy_scrape_retries_total"@ + " "@ =~= "proxy_scrape_retries_total "@);
}

proof fn lemma_pending_requests_line(value: nat)
    ensures
        sample("proxy_pending_requests"@, value)
            == "proxy_pending_requests "@ + decimal(value) + "\n"@,
{
    reveal_strlit("proxy_pending_requests");
    reveal_strlit(" ");
    reveal_strlit("proxy_pending_requests ");
    assert("proxy_pending_requests"@ + " "@ =~= "proxy_pending_requests "@);
}

proof fn lemma_in_flight_requests_line(value: nat)
    ensures
        sample("proxy_in_flight_requests"@, value)
            == "proxy_in_flight_requests "@ + decimal(value) + "\n"@,
{
    reveal_strlit("proxy_in_flight_requests");
    reveal_strlit(" ");
    reveal_strlit("proxy_in_flight_requests ");
    assert("proxy_in_flight_requests"@ + " "@ =~= "proxy_in_flight_requests "@);
}

proof fn lemma_workers_samples(workers: Seq<u64>)
    ensures
        version_samples("proxy_workers"@, workers, 3) ==
            ("proxy_workers{version=\"1\"} "@ + decimal(workers[0] as nat) + "\n"@)
            + ("proxy_workers{version=\"2\"} "@ + decimal(workers[1] as nat) + "\n"@)
            + ("proxy_workers{version=\"3\"} "@ + decimal(workers[2] as nat) + "\n"@),
{
    reveal_with_fuel(version_samples, 4);
    lemma_workers_lines(workers[0] as nat);
    lemma_workers_lines(workers[1] as nat);
    lemma_workers_lines(workers[2] as nat);
    let first = ("proxy_workers{version=\"1\"} "@ + decimal(workers[0] as nat) + "\n"@);
    assert(Seq::<char>::empty() + first =~= first);
}

proof fn lemma_worker_registrations_total_samples(counts: Seq<u64>)
    ensures
        version_samples("proxy_worker_registrations_total"@, counts, 3) ==
            ("proxy_worker_registrations_total{version=\"1\"} "@ + decimal(
                counts[0] as nat,
            ) + "\n"@)
            + ("proxy_worker_registrations_total{version=\"2\"} "@ + decimal(
                counts[1] as nat,
            ) + "\n"@)
            + ("proxy_worker_registrations_total{version=\"3\"} "@ + decimal(
                counts[2] as nat,
            ) + "\n"@),
{
    reveal_with_fuel(version_samples, 4);
    lemma_worker_registrations_total_lines(counts[0] as nat);
    lemma_worker_registrations_total_lines(counts[1] as nat);
    lemma_worker_registrations_total_lines(counts[2] as nat);
    let first = ("proxy_worker_registrations_total{version=\"1\"} "@ + decimal(
        counts[0] as nat,
    ) + "\n"@);
    assert(Seq::<char>::empty() + first =~= first);
}

proof fn lemma_websocket_closes_total_samples(closes: Seq<u64>)
    ensures
        close_samples(closes, 7) ==
            ("proxy_websocket_closes_total{reason=\"client_close\"} "@ + decimal(
                closes[0] as nat,
            ) + "\n"@)
            + ("proxy_websocket_closes_total{reason=\"reset\"} "@ + decimal(
                closes[1] as nat,
            ) + "\n"@)
            + ("proxy_websocket_closes_total{reason=\"receive_error\"} "@ + decimal(
                closes[2] as nat,
            ) + "\n"@)
            + ("proxy_websocket_closes_total{reason=\"heartbeat_timeout\"} "@ + decimal(
                closes[3] as nat,
            ) + "\n"@)
            + ("proxy_websocket_closes_total{reason=\"send_failed\"} "@ + decimal(
                closes[4] as nat,
            ) + "\n"@)
            + ("proxy_websocket_closes_total{reason=\"replaced\"} "@ + decimal(
                closes[5] as nat,
            ) + "\n"@)
            + ("proxy_websocket_closes_total{reason=\"shutdown\"} "@ + decimal(
                closes[6] as nat,
            ) + "\n"@),
{
    reveal_with_fuel(close_samples, 8);
    lemma_websocket_closes_total_lines(closes[0] as nat);
    lemma_websocket_closes_total_lines(closes[1] as nat);
    lemma_websocket_closes_total_lines(closes[2] as nat);
    lemma_websocket_closes_total_lines(closes[3] as nat);
    lemma_websocket_closes_total_lines(closes[4] as nat);
    lemma_websocket_closes_total_lines(closes[5] as nat);
    lemma_websocket_closes_total_lines(closes[6] as nat);
    let first = ("proxy_websocket_closes_total{reason=\"client_close\"} "@ + decimal(
        closes[0] as nat,
    ) + "\n"@);
    assert(Seq::<char>::empty() + first =~= first);
}

proof fn lemma_scrapes_total_samples(scrapes: Seq<u64>)
    ensures
        scrape_samples(scrapes, 7) ==
            ("proxy_scrapes_total{result=\"proxied\"} "@ + decimal(scrapes[0] as nat) + "\n"@)
            + ("proxy_scrapes_total{result=\"unknown_instance\"} "@ + decimal(
                scrapes[1] as nat,
            ) + "\n"@)
            + ("proxy_scrapes_total{result=\"capacity\"} "@ + decimal(scrapes[2] as nat) + "\n"@)
            + ("proxy_scrapes_total{result=\"no_idle_worker\"} "@ + decimal(
                scrapes[3] as nat,
            ) + "\n"@)
            + ("proxy_scrapes_total{result=\"ready_timeout\"} "@ + decimal(
                scrapes[4] as nat,
            ) + "\n"@)
            + ("proxy_scrapes_total{result=\"worker_lost\"} "@ + decimal(scrapes[5] as nat) + "\n"@)
            + ("proxy_scrapes_total{result=\"response_timeout\"} "@ + decimal(
                scrapes[6] as nat,
            ) + "\n"@),
{
    reveal_with_fuel(scrape_samples, 8);
    lemma_scrapes_total_lines(scrapes[0] as nat);
    lemma_scrapes_total_lines(scrapes[1] as nat);
    lemma_scrapes_total_lines(scrapes[2] as nat);
    lemma_scrapes_total_lines(scrapes[3] as nat);
    lemma_scrapes_total_lines(scrapes[4] as nat);
    lemma_scrapes_total_lines(scrapes[5] as nat);
    lemma_scrapes_total_lines(scrapes[6] as nat);
    let first = ("proxy_scrapes_total{result=\"proxied\"} "@ + decimal(scrapes[0] as nat) + "\n"@);
    assert(Seq::<char>::empty() + first =~= first);
}

/// The exposition reads so, line by line: every series has its help and its type before its
/// samples, every sample its name, its label and its count, every line its end, and there is
/// nothing else. Open connections are never shown as fewer than none.
pub proof fn the_exposition_reads(metrics: MetricsView, snapshot: Snapshot)
    ensures
        ({
            let open = if metrics.open_connections < 0 {
                0
            } else {
                metrics.open_connections as nat
            };
            let about_build = "# HELP proxy_build_info "@
                + "Server build version.\n"@
                + "# TYPE proxy_build_info gauge\n"@;
            let build = "proxy_build_info{version=\"3.0.1\"} 1\n"@;
            let about_connections = "# HELP proxy_websocket_connections "@
                + "Open WebSocket connections, registered or not.\n"@
                + "# TYPE proxy_websocket_connections gauge\n"@;
            let connections = "proxy_websocket_connections "@
                + decimal(open)
                + "\n"@;
            let about_workers = "# HELP proxy_workers "@
                + "Registered worker connections by wire version.\n"@
                + "# TYPE proxy_workers gauge\n"@;
            let workers = ("proxy_workers{version=\"1\"} "@ + decimal(
                snapshot.workers_by_version@[0] as nat,
            ) + "\n"@)
                + ("proxy_workers{version=\"2\"} "@ + decimal(
                    snapshot.workers_by_version@[1] as nat,
                ) + "\n"@)
                + ("proxy_workers{version=\"3\"} "@ + decimal(
                    snapshot.workers_by_version@[2] as nat,
                ) + "\n"@);
            let about_registrations = "# HELP proxy_worker_registrations_total "@
                + "Worker registrations by wire version.\n"@
                + "# TYPE proxy_worker_registrations_total counter\n"@;
            let registrations = ("proxy_worker_registrations_total{version=\"1\"} "@ + decimal(
                metrics.registrations[0] as nat,
            ) + "\n"@)
                + ("proxy_worker_registrations_total{version=\"2\"} "@ + decimal(
                    metrics.registrations[1] as nat,
                ) + "\n"@)
                + ("proxy_worker_registrations_total{version=\"3\"} "@ + decimal(
                    metrics.registrations[2] as nat,
                ) + "\n"@);
            let about_closes = "# HELP proxy_websocket_closes_total "@
                + "Ended WebSocket connections by reason.\n"@
                + "# TYPE proxy_websocket_closes_total counter\n"@;
            let closes = ("proxy_websocket_closes_total{reason=\"client_close\"} "@ + decimal(
                metrics.closes[CloseReason::ClientClose.position()] as nat,
            ) + "\n"@)
                + ("proxy_websocket_closes_total{reason=\"reset\"} "@ + decimal(
                    metrics.closes[CloseReason::Reset.position()] as nat,
                ) + "\n"@)
                + ("proxy_websocket_closes_total{reason=\"receive_error\"} "@ + decimal(
                    metrics.closes[CloseReason::ReceiveError.position()] as nat,
                ) + "\n"@)
                + ("proxy_websocket_closes_total{reason=\"heartbeat_timeout\"} "@ + decimal(
                    metrics.closes[CloseReason::HeartbeatTimeout.position()] as nat,
                ) + "\n"@)
                + ("proxy_websocket_closes_total{reason=\"send_failed\"} "@ + decimal(
                    metrics.closes[CloseReason::SendFailed.position()] as nat,
                ) + "\n"@)
                + ("proxy_websocket_closes_total{reason=\"replaced\"} "@ + decimal(
                    metrics.closes[CloseReason::Replaced.position()] as nat,
                ) + "\n"@)
                + ("proxy_websocket_closes_total{reason=\"shutdown\"} "@ + decimal(
                    metrics.closes[CloseReason::Shutdown.position()] as nat,
                ) + "\n"@);
            let about_scrapes = "# HELP proxy_scrapes_total "@
                + "Finished scrape requests by outcome.\n"@
                + "# TYPE proxy_scrapes_total counter\n"@;
            let scrapes = ("proxy_scrapes_total{result=\"proxied\"} "@ + decimal(
                metrics.scrapes[ScrapeOutcome::Proxied.position()] as nat,
            ) + "\n"@)
                + ("proxy_scrapes_total{result=\"unknown_instance\"} "@ + decimal(
                    metrics.scrapes[ScrapeOutcome::UnknownInstance.position()] as nat,
                ) + "\n"@)
                + ("proxy_scrapes_total{result=\"capacity\"} "@ + decimal(
                    metrics.scrapes[ScrapeOutcome::Capacity.position()] as nat,
                ) + "\n"@)
                + ("proxy_scrapes_total{result=\"no_idle_worker\"} "@ + decimal(
                    metrics.scrapes[ScrapeOutcome::NoIdleWorker.position()] as nat,
                ) + "\n"@)
                + ("proxy_scrapes_total{result=\"ready_timeout\"} "@ + decimal(
                    metrics.scrapes[ScrapeOutcome::ReadyTimeout.position()] as nat,
                ) + "\n"@)
                + ("proxy_scrapes_total{result=\"worker_lost\"} "@ + decimal(
                    metrics.scrapes[ScrapeOutcome::WorkerLost.position()] as nat,
                ) + "\n"@)
                + ("proxy_scrapes_total{result=\"response_timeout\"} "@ + decimal(
                    metrics.scrapes[ScrapeOutcome::ResponseTimeout.position()] as nat,
                ) + "\n"@);
            let about_retries = "# HELP proxy_scrape_retries_total "@
                + "Scrape dispatches retried after the selected worker disconnected.\n"@
                + "# TYPE proxy_scrape_retries_total counter\n"@;
            let retries = "proxy_scrape_retries_total "@
                + decimal(metrics.retries as nat)
                + "\n"@;
            let about_pending = "# HELP proxy_pending_requests "@
                + "Scrape requests waiting for a ready answer or a response.\n"@
                + "# TYPE proxy_pending_requests gauge\n"@;
            let pending = "proxy_pending_requests "@
                + decimal(snapshot.pending as nat)
                + "\n"@;
            let about_in_flight = "# HELP proxy_in_flight_requests "@
                + "Admitted scrape requests holding global capacity.\n"@
                + "# TYPE proxy_in_flight_requests gauge\n"@;
            let in_flight = "proxy_in_flight_requests "@
                + decimal(snapshot.in_flight as nat)
                + "\n"@;
            exposition(metrics, snapshot) == (about_build + build + about_connections
                + connections) + (about_workers + workers + about_registrations + registrations)
                + (about_closes + closes + about_scrapes + scrapes) + (about_retries + retries
                + about_pending + pending + about_in_flight + in_flight)
        }),
{
    let open = if metrics.open_connections < 0 {
        0
    } else {
        metrics.open_connections as nat
    };
    lemma_build_info_header();
    lemma_websocket_connections_header();
    lemma_workers_header();
    lemma_worker_registrations_total_header();
    lemma_websocket_closes_total_header();
    lemma_scrapes_total_header();
    lemma_scrape_retries_total_header();
    lemma_pending_requests_header();
    lemma_in_flight_requests_header();
    lemma_build_info_line();
    lemma_websocket_connections_line(open);
    lemma_workers_samples(snapshot.workers_by_version@);
    lemma_worker_registrations_total_samples(metrics.registrations);
    lemma_websocket_closes_total_samples(metrics.closes);
    lemma_scrapes_total_samples(metrics.scrapes);
    lemma_scrape_retries_total_line(metrics.retries as nat);
    lemma_pending_requests_line(snapshot.pending as nat);
    lemma_in_flight_requests_line(snapshot.in_flight as nat);
}

} // verus!
