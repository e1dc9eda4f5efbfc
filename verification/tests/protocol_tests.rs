use taskbench::bonus;
use taskbench::protocol::format_request;
use taskbench::protocol::parse_request;
use taskbench::protocol::Request;
use taskbench::server::conn_step;
use taskbench::server::route;
use taskbench::server::ConnEvent;
use taskbench::server::ConnState;
use taskbench::server::Plan;
use taskbench::server::Server;
use taskbench::server::ServerTrait;
use taskbench::server::Strategy;

fn line(s: &str) -> Vec<u8> {
    s.as_bytes().to_vec()
}

#[test]
fn parse_well_formed_line() {
    assert_eq!(
        parse_request(&line("3:77\n")),
        Some(Request { task_type: 3, seed: 77 })
    );
}

#[test]
fn parse_trims_whitespace() {
    assert_eq!(
        parse_request(&line("  0:18446744073709551615 \r\n")),
        Some(Request { task_type: 0, seed: u64::MAX })
    );
}

#[test]
fn parse_takes_first_and_last_fields() {
    // Splitting on ':' keeps the first and the last field; middles are ignored.
    assert_eq!(
        parse_request(&line("9:junk:51\n")),
        Some(Request { task_type: 9, seed: 51 })
    );
}

#[test]
fn parse_single_field_is_both() {
    // With no colon the one field serves as both task type and seed.
    assert_eq!(
        parse_request(&line("5\n")),
        Some(Request { task_type: 5, seed: 5 })
    );
}

#[test]
fn parse_accepts_leading_plus() {
    assert_eq!(
        parse_request(&line("+4:+9\n")),
        Some(Request { task_type: 4, seed: 9 })
    );
}

#[test]
fn parse_rejects_missing_fields() {
    assert_eq!(parse_request(&line("\n")), None);
    assert_eq!(parse_request(&line(":\n")), None);
    assert_eq!(parse_request(&line("3:\n")), None);
    assert_eq!(parse_request(&line(":7\n")), None);
}

#[test]
fn parse_rejects_non_integers() {
    assert_eq!(parse_request(&line("a:7\n")), None);
    assert_eq!(parse_request(&line("3:x\n")), None);
    assert_eq!(parse_request(&line("3:4 5\n")), None);
    assert_eq!(parse_request(&line("-1:7\n")), None);
    assert_eq!(parse_request(&line("+:7\n")), None);
}

#[test]
fn parse_rejects_out_of_domain_values() {
    // 256 does not fit the one-byte task-type domain.
    assert_eq!(parse_request(&line("256:7\n")), None);
    // One past u64::MAX.
    assert_eq!(parse_request(&line("3:18446744073709551616\n")), None);
    assert_eq!(parse_request(&line("255:18446744073709551615\n")),
        Some(Request { task_type: 255, seed: u64::MAX }));
}

#[test]
fn format_then_parse_round_trip() {
    let l = format_request(12, 3405691582);
    assert_eq!(l, line("12:3405691582\n"));
    assert_eq!(
        parse_request(&l),
        Some(Request { task_type: 12, seed: 3405691582 })
    );
    let z = format_request(0, 0);
    assert_eq!(z, line("0:0\n"));
    assert_eq!(parse_request(&z), Some(Request { task_type: 0, seed: 0 }));
}

#[test]
fn route_drops_out_of_range_task_type() {
    // An out-of-range code is silently ignored: no response, no crash.
    assert_eq!(route(&line("7:5\n"), 5), None);
    assert_eq!(route(&line("255:5\n"), 10), None);
    assert_eq!(
        route(&line("4:5\n"), 5),
        Some(Request { task_type: 4, seed: 5 })
    );
}

#[test]
fn plain_server_runs_everything_cooperatively() {
    let srv = Server { total_task_types: 8 };
    let p = srv.plan_request(&line("3:9\n")).unwrap();
    assert_eq!(
        p,
        Plan {
            request: Request { task_type: 3, seed: 9 },
            strategy: Strategy::Cooperative
        }
    );
    assert_eq!(srv.plan_request(&line("8:9\n")), None);
    assert_eq!(srv.plan_request(&line("bad\n")), None);
}

#[test]
fn dispatching_server_splits_strategies() {
    let srv = bonus::Server { total_task_types: 8, io_task_type: 0 };
    let io = srv.plan_request(&line("0:4\n")).unwrap();
    assert_eq!(io.strategy, Strategy::Cooperative);
    let cpu = srv.plan_request(&line("5:4\n")).unwrap();
    assert_eq!(cpu.strategy, Strategy::Pool);
    assert_eq!(srv.plan_request(&line("9:4\n")), None);
}

#[test]
fn connection_handler_transitions() {
    assert_eq!(conn_step(ConnState::Reading, ConnEvent::LineRead), ConnState::Dispatching);
    assert_eq!(conn_step(ConnState::Reading, ConnEvent::EndOfStream), ConnState::Closed);
    assert_eq!(conn_step(ConnState::Reading, ConnEvent::ReadFailed), ConnState::Closed);
    assert_eq!(conn_step(ConnState::Dispatching, ConnEvent::RouteHit), ConnState::Writing);
    assert_eq!(conn_step(ConnState::Dispatching, ConnEvent::RouteMiss), ConnState::Reading);
    assert_eq!(conn_step(ConnState::Writing, ConnEvent::WriteDone), ConnState::Reading);
    assert_eq!(conn_step(ConnState::Writing, ConnEvent::WriteFailed), ConnState::Closed);
    assert_eq!(conn_step(ConnState::Closed, ConnEvent::LineRead), ConnState::Closed);
    assert_eq!(conn_step(ConnState::Closed, ConnEvent::WriteDone), ConnState::Closed);
}
