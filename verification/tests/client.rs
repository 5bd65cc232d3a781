use op_cached::client::{
    check_reply, connect_step_exec, expect_status, expect_value, ClientError, ConnectAction, ConnectEvent,
    ConnectFailure, ConnectState, StatusReport,
};
use op_cached::protocol::Response;
use op_cached::time::{Duration, Instant};

#[test]
fn error_reply_becomes_daemon_error() {
    match check_reply(Some(Response::error("nope".to_string()))) {
        Err(ClientError::Daemon(m)) => assert_eq!(m, "nope"),
        other => panic!("unexpected {other:?}"),
    }
}

#[test]
fn no_reply_means_closed() {
    assert!(matches!(check_reply(None), Err(ClientError::Closed)));
}

#[test]
fn other_reply_passes() {
    assert!(matches!(check_reply(Some(Response::ok())), Ok(Response::Success { ok: true })));
}

#[test]
fn value_expected() {
    assert_eq!(expect_value(Response::value("s3cret".to_string())).unwrap(), "s3cret");
    assert!(matches!(expect_value(Response::ok()), Err(ClientError::Unexpected(Response::Success { ok: true }))));
}

#[test]
fn status_expected() {
    assert_eq!(
        expect_status(Response::status(2, 604800, 9)).unwrap(),
        StatusReport { entries: 2, ttl_secs: 604800, uptime_secs: 9 }
    );
    assert!(matches!(expect_status(Response::value("x".to_string())), Err(ClientError::Unexpected(_))));
}

fn at(ms: u128) -> Instant {
    Instant::from_nanos(ms * 1_000_000)
}

#[test]
fn connect_without_spawn() {
    let s = ConnectState::Initial { auto_spawn: false };
    assert_eq!(connect_step_exec(s, ConnectEvent::Attempted { connected: true, now: at(0) }).1, ConnectAction::Use);
    assert_eq!(
        connect_step_exec(s, ConnectEvent::Attempted { connected: false, now: at(0) }).1,
        ConnectAction::Fail(ConnectFailure::NotReachable)
    );
}

#[test]
fn connect_with_spawn_waits_until_deadline() {
    let s = ConnectState::Initial { auto_spawn: true };
    let (s, a) = connect_step_exec(s, ConnectEvent::Attempted { connected: false, now: at(0) });
    assert_eq!(a, ConnectAction::Spawn);
    let (s, a) = connect_step_exec(s, ConnectEvent::Spawned { now: at(10) });
    assert_eq!(s, ConnectState::Waiting { deadline: at(3010) });
    assert_eq!(a, ConnectAction::Retry(Duration::from_nanos(50_000_000)));
    let (s, a) = connect_step_exec(s, ConnectEvent::Attempted { connected: false, now: at(3009) });
    assert_eq!(a, ConnectAction::Retry(Duration::from_nanos(50_000_000)));
    let (_, a) = connect_step_exec(s, ConnectEvent::Attempted { connected: false, now: at(3010) });
    assert_eq!(a, ConnectAction::Fail(ConnectFailure::DidNotComeUp));
    let (_, a) = connect_step_exec(s, ConnectEvent::Attempted { connected: true, now: at(5000) });
    assert_eq!(a, ConnectAction::Use);
}

#[test]
fn status_report_layout() {
    let r = StatusReport { entries: 3, ttl_secs: 604800, uptime_secs: 9420 };
    assert_eq!(
        op_cached::client::status_report_text("/run/user/1000/op-cached.sock", r),
        "socket:  /run/user/1000/op-cached.sock\nentries: 3\nttl:     7days\nuptime:  2h 37m\n"
    );
}

#[test]
fn status_report_zero_and_large_counts() {
    let r = StatusReport { entries: 0, ttl_secs: 0, uptime_secs: 61 };
    assert_eq!(
        op_cached::client::status_report_text("s", r),
        "socket:  s\nentries: 0\nttl:     0s\nuptime:  1m 1s\n"
    );
    let r = StatusReport { entries: 1234567890, ttl_secs: 3600, uptime_secs: 1 };
    assert_eq!(
        op_cached::client::status_report_text("s", r),
        "socket:  s\nentries: 1234567890\nttl:     1h\nuptime:  1s\n"
    );
}
