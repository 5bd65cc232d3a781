use op_cached::config::{
    default_ttl, parse_duration, resolve_auto_spawn, resolve_socket, resolve_ttl, ttl_from_env, ConfigError,
};
use op_cached::time::Duration;

#[test]
fn default_ttl_is_seven_days() {
    assert_eq!(default_ttl(), Duration::from_secs(7 * 24 * 60 * 60));
}

#[test]
fn parse_duration_examples() {
    assert_eq!(parse_duration("7d"), Ok(Duration::from_secs(7 * 86400)));
    assert_eq!(parse_duration("12h"), Ok(Duration::from_secs(12 * 3600)));
    assert_eq!(parse_duration("30m"), Ok(Duration::from_secs(30 * 60)));
    assert_eq!(parse_duration("2h 37min"), Ok(Duration::from_secs(9420)));
    assert_eq!(parse_duration("32ms"), Ok(Duration::from_nanos(32_000_000)));
}

#[test]
fn parse_duration_errors() {
    assert_eq!(parse_duration(""), Err("value was empty".to_string()));
    assert!(parse_duration("abc").is_err());
    assert!(parse_duration("10").is_err());
}

#[test]
fn ttl_arg_wins() {
    let d = Duration::from_secs(5);
    assert_eq!(resolve_ttl(Some(d), Some("1h".to_string())).unwrap(), d);
    assert_eq!(resolve_ttl(Some(d), Some("garbage".to_string())).unwrap(), d);
}

#[test]
fn ttl_from_environment_is_trimmed() {
    assert_eq!(resolve_ttl(None, Some("  12h \n".to_string())).unwrap(), Duration::from_secs(12 * 3600));
}

#[test]
fn ttl_blank_environment_means_default() {
    assert_eq!(resolve_ttl(None, Some("   ".to_string())).unwrap(), default_ttl());
    assert_eq!(resolve_ttl(None, Some(String::new())).unwrap(), default_ttl());
    assert_eq!(resolve_ttl(None, None).unwrap(), default_ttl());
}

#[test]
fn ttl_invalid_environment_is_error() {
    match resolve_ttl(None, Some(" soon ".to_string())) {
        Err(ConfigError::InvalidTtl { value, reason }) => {
            assert_eq!(value, " soon ");
            assert_eq!(reason, "expected number at 0");
        }
        other => panic!("unexpected {other:?}"),
    }
}

#[test]
fn ttl_from_env_maps_parse() {
    assert_eq!(ttl_from_env("x".to_string(), Ok(Duration::from_secs(1))).unwrap(), Duration::from_secs(1));
    match ttl_from_env("x".to_string(), Err("bad".to_string())) {
        Err(ConfigError::InvalidTtl { value, reason }) => {
            assert_eq!(value, "x");
            assert_eq!(reason, "bad");
        }
        other => panic!("unexpected {other:?}"),
    }
}

#[test]
fn socket_precedence() {
    let arg = Some(b"/my.sock".to_vec());
    let env = Some(b"/env.sock".to_vec());
    let xdg = Some(b"/run/user/1000".to_vec());
    assert_eq!(resolve_socket(arg.clone(), env.clone(), xdg.clone(), 1000), b"/my.sock".to_vec());
    assert_eq!(resolve_socket(None, env.clone(), xdg.clone(), 1000), b"/env.sock".to_vec());
    assert_eq!(resolve_socket(None, None, xdg.clone(), 1000), b"/run/user/1000/op-cached.sock".to_vec());
    assert_eq!(resolve_socket(None, Some(vec![]), xdg.clone(), 1000), b"/run/user/1000/op-cached.sock".to_vec());
    assert_eq!(resolve_socket(None, None, None, 1000), b"/tmp/op-cached-1000.sock".to_vec());
    assert_eq!(resolve_socket(None, None, Some(vec![]), 0), b"/tmp/op-cached-0.sock".to_vec());
}

#[test]
fn socket_runtime_dir_with_trailing_slash() {
    assert_eq!(resolve_socket(None, None, Some(b"/run/".to_vec()), 7), b"/run/op-cached.sock".to_vec());
}

#[test]
fn socket_uid_digits() {
    assert_eq!(resolve_socket(None, None, None, 4294967295), b"/tmp/op-cached-4294967295.sock".to_vec());
    assert_eq!(resolve_socket(None, None, None, 10), b"/tmp/op-cached-10.sock".to_vec());
}

#[test]
fn auto_spawn_rules() {
    assert!(resolve_auto_spawn(false, None));
    assert!(resolve_auto_spawn(false, Some(vec![])));
    assert!(!resolve_auto_spawn(false, Some(b"1".to_vec())));
    assert!(!resolve_auto_spawn(true, None));
}

#[test]
fn parse_duration_refuses_only_totals_a_duration_cannot_hold() {
    let msg = "duration is too large".to_string();
    assert_eq!(parse_duration("18446744073709551615s 1000000000ns"), Err(msg.clone()));
    assert_eq!(parse_duration("18446744073709551615s 1000ms"), Err(msg.clone()));
    assert_eq!(parse_duration("584542046091y"), Err(msg.clone()));
    assert_eq!(parse_duration("000000000001s"), Ok(Duration::from_secs(1)));
    assert_eq!(parse_duration("100000000000ns"), Ok(Duration::from_nanos(100_000_000_000)));
    assert_eq!(parse_duration("18446744073709551615s"), Ok(Duration::from_secs(u64::MAX)));
    assert_eq!(parse_duration("9000000000000000000ns 9000000000000000000ns").map(|d| d.as_nanos()), Ok(18_000_000_000_000_000_000u128));
    assert_eq!(parse_duration("1000000000000millis"), Ok(Duration::from_secs(1_000_000_000)));
    assert_eq!(parse_duration("1 000 000s"), Ok(Duration::from_secs(1_000_000)));
    assert_eq!(parse_duration("2.5days"), Ok(Duration::from_secs(216_000)));
    assert_eq!(
        parse_duration("1y 2M 3d 4h 5m 6s"),
        Ok(Duration::from_secs(31_557_600 + 2 * 2_630_016 + 3 * 86400 + 4 * 3600 + 5 * 60 + 6))
    );
    assert_eq!(parse_duration("99999999999999999999s"), Err("number is too large or cannot be represented without a lack of precision (values below 1ns are not supported)".to_string()));
    match resolve_ttl(None, Some("18446744073709551615s 1000000000ns".to_string())) {
        Err(ConfigError::InvalidTtl { reason, .. }) => assert_eq!(reason, msg),
        other => panic!("unexpected {other:?}"),
    }
}
