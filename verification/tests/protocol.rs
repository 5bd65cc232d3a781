use op_cached::protocol::{frame, unframe, FrameError, Response};

#[test]
fn response_constructors() {
    assert!(matches!(Response::ok(), Response::Success { ok: true }));
    match Response::value("v".to_string()) {
        Response::Value { ok, value } => {
            assert!(ok);
            assert_eq!(value, "v");
        }
        other => panic!("unexpected {other:?}"),
    }
    match Response::error("boom".to_string()) {
        Response::Error { ok, error } => {
            assert!(!ok);
            assert_eq!(error, "boom");
        }
        other => panic!("unexpected {other:?}"),
    }
    match Response::status(3, 60, 7) {
        Response::Status { ok, entries, ttl_secs, uptime_secs } => {
            assert!(ok);
            assert_eq!((entries, ttl_secs, uptime_secs), (3, 60, 7));
        }
        other => panic!("unexpected {other:?}"),
    }
}

#[test]
fn frame_appends_newline() {
    assert_eq!(frame(b"{\"cmd\":\"status\"}".to_vec()), b"{\"cmd\":\"status\"}\n".to_vec());
}

#[test]
fn unframe_eof_is_none() {
    assert_eq!(unframe(b""), Ok(None));
}

#[test]
fn unframe_strips_lf_and_crlf() {
    assert_eq!(unframe(b"{}\n"), Ok(Some(b"{}".to_vec())));
    assert_eq!(unframe(b"{}\r\n"), Ok(Some(b"{}".to_vec())));
    assert_eq!(unframe(b"{}\r\n\n\r"), Ok(Some(b"{}".to_vec())));
    assert_eq!(unframe(b"{}"), Ok(Some(b"{}".to_vec())), "last line without terminator");
}

#[test]
fn unframe_keeps_inner_line_ends() {
    assert_eq!(unframe(b"a\rb\n"), Ok(Some(b"a\rb".to_vec())));
}

#[test]
fn unframe_empty_line_is_error() {
    assert_eq!(unframe(b"\n"), Err(FrameError::EmptyMessage));
    assert_eq!(unframe(b"\r\n"), Err(FrameError::EmptyMessage));
}

#[test]
fn unframe_inverts_frame() {
    let m = b"{\"ok\":true}".to_vec();
    assert_eq!(unframe(&frame(m.clone())), Ok(Some(m)));
}
