use op_cached::cache::Cache;
use op_cached::daemon::{handle_request, is_op_url, lookup_template, store_fetched, value_reply, Action, Origin, Target};
use op_cached::protocol::{Request, Response};
use op_cached::time::{Duration, Instant, SystemTime};

fn t(secs: u64) -> Instant {
    Instant::from_nanos(1_000_000_000_000).after(Duration::from_secs(secs))
}

fn error_text(r: &Response) -> &str {
    match r {
        Response::Error { ok: false, error } => error,
        other => panic!("not an error reply: {other:?}"),
    }
}

#[test]
fn op_url_prefix() {
    assert!(is_op_url("op://vault/item/field"));
    assert!(is_op_url("op://"));
    assert!(!is_op_url("op:/"));
    assert!(!is_op_url("https://x"));
    assert!(!is_op_url(""));
}

#[test]
fn read_of_non_op_url_is_refused() {
    let mut c = Cache::new(Duration::from_secs(10));
    match handle_request(&mut c, Request::Read { url: "http://x".to_string() }, t(0), t(0)) {
        Action::Reply(r) => assert_eq!(error_text(&r), "not an op:// url: http://x"),
        other => panic!("unexpected {other:?}"),
    }
    assert_eq!(c.len(), 0);
}

#[test]
fn read_miss_fetches_then_hit_decrypts() {
    let mut c = Cache::new(Duration::from_secs(10));
    let url = "op://v/i/f".to_string();
    let a = handle_request(&mut c, Request::Read { url: url.clone() }, t(0), t(0));
    let target = match a {
        Action::Fetch(target) => target,
        other => panic!("unexpected {other:?}"),
    };
    match &target {
        Target::Secret { url: u } => assert_eq!(u, &url),
        other => panic!("unexpected {other:?}"),
    }
    let r = store_fetched(&mut c, target, b"hunter2".to_vec(), b"CT".to_vec(), t(1));
    assert!(matches!(r, Response::Value { ok: true, ref value } if value == "hunter2"));
    match handle_request(&mut c, Request::Read { url: url.clone() }, t(5), t(0)) {
        Action::Decrypt { origin, ciphertext } => {
            assert_eq!(origin, Origin::Secret);
            assert_eq!(ciphertext, b"CT".to_vec());
        }
        other => panic!("unexpected {other:?}"),
    }
    assert!(matches!(handle_request(&mut c, Request::Read { url }, t(11), t(0)), Action::Fetch(_)));
    assert_eq!(c.len(), 0);
}

#[test]
fn inject_resolves_first() {
    let mut c = Cache::new(Duration::from_secs(10));
    match handle_request(&mut c, Request::Inject { path: "tpl.env".to_string() }, t(0), t(0)) {
        Action::Resolve { path } => assert_eq!(path, "tpl.env"),
        other => panic!("unexpected {other:?}"),
    }
}

#[test]
fn template_cached_per_mtime() {
    let mut c = Cache::new(Duration::from_secs(10));
    let m1 = SystemTime::from_nanos(100);
    let m2 = SystemTime::from_nanos(200);
    let a = lookup_template(&mut c, "/abs/tpl".to_string(), m1, t(0));
    let target = match a {
        Action::Fetch(target) => target,
        other => panic!("unexpected {other:?}"),
    };
    let r = store_fetched(&mut c, target, b"A=1\n".to_vec(), b"CT".to_vec(), t(0));
    assert!(matches!(r, Response::Value { ok: true, ref value } if value == "A=1\n"));
    match lookup_template(&mut c, "/abs/tpl".to_string(), m1, t(3)) {
        Action::Decrypt { origin, ciphertext } => {
            assert_eq!(origin, Origin::Template);
            assert_eq!(ciphertext, b"CT".to_vec());
        }
        other => panic!("unexpected {other:?}"),
    }
    match lookup_template(&mut c, "/abs/tpl".to_string(), m2, t(4)) {
        Action::Fetch(Target::Template { path, mtime }) => {
            assert_eq!(path, "/abs/tpl");
            assert_eq!(mtime, m2);
        }
        other => panic!("unexpected {other:?}"),
    }
    assert_eq!(c.len(), 0);
}

#[test]
fn clear_status_stop() {
    let mut c = Cache::new(Duration::from_secs(3600));
    let _ = store_fetched(&mut c, Target::Secret { url: "op://a".to_string() }, b"x".to_vec(), b"y".to_vec(), t(0));
    match handle_request(&mut c, Request::Status, t(90), t(0)) {
        Action::Reply(Response::Status { ok, entries, ttl_secs, uptime_secs }) => {
            assert!(ok);
            assert_eq!((entries, ttl_secs, uptime_secs), (1, 3600, 90));
        }
        other => panic!("unexpected {other:?}"),
    }
    assert!(matches!(handle_request(&mut c, Request::Clear, t(91), t(0)), Action::Reply(Response::Success { ok: true })));
    assert_eq!(c.len(), 0);
    assert!(matches!(handle_request(&mut c, Request::Stop, t(92), t(0)), Action::ReplyAndStop(Response::Success { ok: true })));
}

#[test]
fn value_reply_utf8() {
    assert!(matches!(value_reply(Origin::Secret, Ok("é".as_bytes().to_vec())), Response::Value { ok: true, ref value } if value == "é"));
    assert_eq!(error_text(&value_reply(Origin::Secret, Ok(vec![0xff, 0xfe]))), "value is not valid UTF-8");
    assert_eq!(error_text(&value_reply(Origin::Template, Ok(vec![0xc3]))), "rendered output is not valid UTF-8");
    assert_eq!(error_text(&value_reply(Origin::Secret, Err("op read failed".to_string()))), "op read failed");
}
