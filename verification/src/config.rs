//! Configuration precedence: command line, then environment, then defaults.
//!
//! The environment is read at the edge; these functions take what was read
//! (`None` for a variable that is unset) and decide.
use vstd::prelude::*;

use crate::duration_bound::{bounded_duration, is_bounded_duration};
use crate::text::{is_trim_of, trim};
use crate::time::{Duration, NANOS_PER_SEC};

verus! {

/// The default TTL, seven days, in seconds.
pub const DEFAULT_TTL_SECS: u64 = 604800;

/// The default TTL: seven days.
pub fn default_ttl() -> (d: Duration)
    ensures
        d@ == 7 * 24 * 60 * 60 * NANOS_PER_SEC,
{
    Duration::from_secs(DEFAULT_TTL_SECS)
}

/// What `humantime::parse_duration` makes of `s`: the duration in
/// nanoseconds, or the text of its error.
pub uninterp spec fn humantime_parse_duration(s: Seq<char>) -> Result<nat, Seq<char>>;

/// The view of a duration parse.
pub open spec fn parse_view(r: Result<Duration, String>) -> Result<nat, Seq<char>> {
    match r {
        Ok(d) => Ok(d@),
        Err(e) => Err(e@),
    }
}

/// Parses a human-readable duration such as `7d`, `12h` or `30m`.
///
/// Calls `humantime::parse_duration` and converts its `std::time::Duration`
/// to nanoseconds and its error to its `Display` text. The contract only
/// names the result: it depends on `s` alone.
///
/// The crate panics in exactly one place: `Duration::new` in its
/// `add_current`, on a running total of `u64::MAX` seconds plus a nanosecond
/// sum of exactly one second, that is on a total of `(u64::MAX + 1)` seconds.
/// Every span it adds is less than its number (plus one when it has a
/// fraction) times its unit, and a span whose number overflows or whose unit
/// is unknown ends the parse before anything of it is added; so the running
/// total never exceeds `duration_bound(s@)`, and the `requires` keeps that
/// bound below the panicking total.
#[verifier::external_body]
fn humantime_parse(s: &str) -> (r: Result<Duration, String>)
    requires
        bounded_duration(s@),
    ensures
        parse_view(r) == humantime_parse_duration(s@),
{
    match humantime::parse_duration(s) {
        Ok(d) => Ok(Duration { nanos: d.as_nanos() }),
        Err(e) => Err(e.to_string()),
    }
}

/// The error text for a duration too large for any `Duration`.
pub open spec fn too_large_message() -> Seq<char> {
    "duration is too large"@
}

/// What `parse_duration` makes of `s`: a refusal when its bound reaches the
/// total that a `Duration` cannot hold, humantime's reading of it otherwise.
pub open spec fn duration_parse(s: Seq<char>) -> Result<nat, Seq<char>> {
    if !bounded_duration(s) {
        Err(too_large_message())
    } else {
        humantime_parse_duration(s)
    }
}

/// Parses a human-readable duration (the value of `daemon --ttl` or
/// `OP_CACHED_TTL`), with the parser's message on failure. A duration whose
/// spans could add up to `u64::MAX + 1` seconds or more (see
/// `duration_bound`) is refused without parsing.
pub fn parse_duration(s: &str) -> (r: Result<Duration, String>)
    ensures
        parse_view(r) == duration_parse(s@),
{
    if !is_bounded_duration(s) {
        return Err("duration is too large".to_owned());
    }
    humantime_parse(s)
}

/// Why the configuration could not be resolved.
#[derive(Debug, Clone)]
pub enum ConfigError {
    /// `OP_CACHED_TTL` holds `value`, which does not parse; `reason` says why.
    InvalidTtl { value: String, reason: String },
}

/// The characters of `s` without leading and trailing whitespace.
pub open spec fn trimmed(s: Seq<char>) -> Seq<char> {
    choose|t: Seq<char>| is_trim_of(t, s)
}

proof fn lemma_trim_unique(t: Seq<char>, s: Seq<char>)
    requires
        is_trim_of(t, s),
    ensures
        trimmed(s) == t,
{
    let u = trimmed(s);
    assert(is_trim_of(u, s));
    let (a1, b1) = choose|a: int, b: int|
        0 <= a <= b <= s.len() && t == s.subrange(a, b)
        && (forall|i: int| 0 <= i < a ==> crate::text::is_whitespace(#[trigger] s[i]))
        && (forall|i: int| b <= i < s.len() ==> crate::text::is_whitespace(#[trigger] s[i]))
        && (a < b ==> !crate::text::is_whitespace(s[a]) && !crate::text::is_whitespace(s[b - 1]));
    let (a2, b2) = choose|a: int, b: int|
        0 <= a <= b <= s.len() && u == s.subrange(a, b)
        && (forall|i: int| 0 <= i < a ==> crate::text::is_whitespace(#[trigger] s[i]))
        && (forall|i: int| b <= i < s.len() ==> crate::text::is_whitespace(#[trigger] s[i]))
        && (a < b ==> !crate::text::is_whitespace(s[a]) && !crate::text::is_whitespace(s[b - 1]));
    if a1 < b1 && a2 < b2 {
        assert(a1 == a2 && b1 == b2) by {
            if a1 < a2 {
                assert(crate::text::is_whitespace(s[a1]));
            }
            if a2 < a1 {
                assert(crate::text::is_whitespace(s[a2]));
            }
            if b1 < b2 {
                assert(crate::text::is_whitespace(s[b2 - 1]));
            }
            if b2 < b1 {
                assert(crate::text::is_whitespace(s[b1 - 1]));
            }
        }
    } else if a1 < b1 {
        assert(crate::text::is_whitespace(s[a1]));
    } else if a2 < b2 {
        assert(crate::text::is_whitespace(s[a2]));
    }
    assert(u =~= t);
}

/// The TTL that the arguments select, in nanoseconds, or the offending value
/// and the parser's message: the command-line value wins; then
/// `OP_CACHED_TTL` when it holds more than whitespace (trimmed, then parsed);
/// otherwise seven days.
pub open spec fn ttl_choice(arg: Option<nat>, env: Option<Seq<char>>) -> Result<nat, (Seq<char>, Seq<char>)> {
    match arg {
        Some(d) => Ok(d),
        None => match env {
            Some(s) if trimmed(s).len() > 0 => match duration_parse(trimmed(s)) {
                Ok(d) => Ok(d),
                Err(m) => Err((s, m)),
            },
            _ => Ok(7 * 24 * 60 * 60 * NANOS_PER_SEC as nat),
        },
    }
}

/// The view of a TTL resolution.
pub open spec fn ttl_view(r: Result<Duration, ConfigError>) -> Result<nat, (Seq<char>, Seq<char>)> {
    match r {
        Ok(d) => Ok(d@),
        Err(ConfigError::InvalidTtl { value, reason }) => Err((value@, reason@)),
    }
}

/// Turns the parse of the environment's TTL `value` into the resolved TTL:
/// the parsed duration, or an error naming the value and the parser's reason.
pub fn ttl_from_env(value: String, parsed: Result<Duration, String>) -> (r: Result<Duration, ConfigError>)
    ensures
        ttl_view(r) == (match parse_view(parsed) {
            Ok(d) => Ok::<nat, (Seq<char>, Seq<char>)>(d),
            Err(m) => Err((value@, m)),
        }),
{
    match parsed {
        Ok(d) => Ok(d),
        Err(reason) => Err(ConfigError::InvalidTtl { value, reason }),
    }
}

/// Resolve TTL: CLI arg > env var > default (7d).
/// `env` is the value of `OP_CACHED_TTL`, `None` when it is unset or not Unicode.
pub fn resolve_ttl(arg: Option<Duration>, env: Option<String>) -> (r: Result<Duration, ConfigError>)
    ensures
        ttl_view(r) == ttl_choice(
            match arg {
                Some(d) => Some(d@),
                None => None,
            },
            match env {
                Some(s) => Some(s@),
                None => None,
            },
        ),
{
    if let Some(d) = arg {
        return Ok(d);
    }
    match env {
        Some(s) => {
            let t = trim(s.as_str());
            proof {
                lemma_trim_unique(t@, s@);
            }
            if t.is_empty() {
                Ok(default_ttl())
            } else {
                let parsed = parse_duration(t);
                ttl_from_env(s.clone(), parsed)
            }
        },
        None => Ok(default_ttl()),
    }
}

/// The TTL on the command line always wins, whatever the environment holds;
/// without it an unset or blank `OP_CACHED_TTL` gives seven days
/// (604 800 seconds), and any other value is parsed after trimming, an error
/// carrying the value as it was set.
pub proof fn law_ttl_precedence(d: nat, env: Option<Seq<char>>, s: Seq<char>)
    ensures
        ttl_choice(Some(d), env) == Ok::<nat, (Seq<char>, Seq<char>)>(d),
        ttl_choice(None, None) == Ok::<nat, (Seq<char>, Seq<char>)>(604_800_000_000_000),
        trimmed(s).len() == 0 ==> ttl_choice(None, Some(s)) == Ok::<nat, (Seq<char>, Seq<char>)>(604_800_000_000_000),
        trimmed(s).len() > 0 ==> ttl_choice(None, Some(s)) == (match duration_parse(trimmed(s)) {
            Ok(n) => Ok::<nat, (Seq<char>, Seq<char>)>(n),
            Err(m) => Err((s, m)),
        }),
{
}

/// The socket on the command line always wins; without it a non-empty
/// `OP_CACHED_SOCKET` wins whatever `XDG_RUNTIME_DIR` holds; without both,
/// a non-empty runtime directory holds `op-cached.sock`; otherwise the socket
/// is `/tmp/op-cached-<uid>.sock`.
pub proof fn law_socket_precedence(a: Seq<u8>, p: Seq<u8>, dir: Seq<u8>, env: Option<Seq<u8>>, runtime_dir: Option<Seq<u8>>, uid: nat)
    ensures
        socket_choice(Some(a), env, runtime_dir, uid) == a,
        p.len() > 0 ==> socket_choice(None, Some(p), runtime_dir, uid) == p,
        non_empty(env) is None && dir.len() > 0 ==> socket_choice(None, env, Some(dir), uid)
            == join_path(dir, socket_file_name()),
        non_empty(env) is None && non_empty(runtime_dir) is None ==> socket_choice(None, env, runtime_dir, uid)
            == tmp_socket_prefix() + decimal(uid) + socket_suffix(),
        dir.len() > 0 ==> join_path(dir, socket_file_name()).take(dir.len() as int) == dir,
        dir.len() > 0 ==> join_path(dir, socket_file_name())[dir.len() - 1] == SLASH
            || join_path(dir, socket_file_name())[dir.len() as int] == SLASH,
{
    if dir.len() > 0 {
        assert(join_path(dir, socket_file_name()).take(dir.len() as int) =~= dir);
    }
}

/// The decimal digits of `n`, as ASCII bytes.
pub open spec fn decimal(n: nat) -> Seq<u8>
    decreases n,
{
    if n < 10 {
        seq![(48 + n) as u8]
    } else {
        decimal(n / 10).push((48 + n % 10) as u8)
    }
}

/// Appends the decimal digits of `n` to `out`.
fn push_decimal(out: &mut Vec<u8>, n: u32)
    ensures
        final(out)@ == old(out)@ + decimal(n as nat),
    decreases n,
{
    if n >= 10 {
        push_decimal(out, n / 10);
    }
    let ghost mid = out@;
    out.push(48u8 + (n % 10) as u8);
    assert(out@ =~= old(out)@ + decimal(n as nat));
}

/// The bytes `op-cached.sock`.
pub open spec fn socket_file_name() -> Seq<u8> {
    seq![111u8, 112, 45, 99, 97, 99, 104, 101, 100, 46, 115, 111, 99, 107]
}

/// The bytes `/tmp/op-cached-`.
pub open spec fn tmp_socket_prefix() -> Seq<u8> {
    seq![47u8, 116, 109, 112, 47, 111, 112, 45, 99, 97, 99, 104, 101, 100, 45]
}

/// The bytes `.sock`.
pub open spec fn socket_suffix() -> Seq<u8> {
    seq![46u8, 115, 111, 99, 107]
}

/// The byte `/`.
pub const SLASH: u8 = 47;

/// `dir` joined with the relative file name `name`, as `Path::join` does for a
/// relative name: a `/` goes between them unless `dir` already ends in one.
pub open spec fn join_path(dir: Seq<u8>, name: Seq<u8>) -> Seq<u8> {
    if dir.len() > 0 && dir.last() == SLASH {
        dir + name
    } else {
        dir.push(SLASH) + name
    }
}

/// A path variable counts only when it is set to something non-empty.
pub open spec fn non_empty(v: Option<Seq<u8>>) -> Option<Seq<u8>> {
    match v {
        Some(p) if p.len() > 0 => Some(p),
        _ => None,
    }
}

/// The socket path that the arguments select: the command-line path; else
/// `OP_CACHED_SOCKET`; else `op-cached.sock` in `XDG_RUNTIME_DIR`; else
/// `/tmp/op-cached-<uid>.sock`.
pub open spec fn socket_choice(arg: Option<Seq<u8>>, env: Option<Seq<u8>>, runtime_dir: Option<Seq<u8>>, uid: nat) -> Seq<u8> {
    match arg {
        Some(p) => p,
        None => match non_empty(env) {
            Some(p) => p,
            None => match non_empty(runtime_dir) {
                Some(dir) => join_path(dir, socket_file_name()),
                None => tmp_socket_prefix() + decimal(uid) + socket_suffix(),
            },
        },
    }
}

/// The view of an optional byte string.
pub open spec fn opt_bytes(v: Option<Vec<u8>>) -> Option<Seq<u8>> {
    match v {
        Some(p) => Some(p@),
        None => None,
    }
}

/// Resolve socket path: CLI arg > env var > XDG_RUNTIME_DIR > /tmp.
/// Paths are raw bytes; `env` and `runtime_dir` are the values of
/// `OP_CACHED_SOCKET` and `XDG_RUNTIME_DIR`, `uid` the caller's user id.
pub fn resolve_socket(arg: Option<Vec<u8>>, env: Option<Vec<u8>>, runtime_dir: Option<Vec<u8>>, uid: u32) -> (path: Vec<u8>)
    ensures
        path@ == socket_choice(opt_bytes(arg), opt_bytes(env), opt_bytes(runtime_dir), uid as nat),
{
    if let Some(p) = arg {
        return p;
    }
    if let Some(p) = env {
        if p.len() > 0 {
            return p;
        }
    }
    if let Some(dir) = runtime_dir {
        if dir.len() > 0 {
            let mut path = dir;
            if path[path.len() - 1] != SLASH {
                path.push(SLASH);
            }
            let mut name: Vec<u8> = vec![111u8, 112, 45, 99, 97, 99, 104, 101, 100, 46, 115, 111, 99, 107];
            assert(name@ =~= socket_file_name());
            path.append(&mut name);
            return path;
        }
    }
    let mut path: Vec<u8> = vec![47u8, 116, 109, 112, 47, 111, 112, 45, 99, 97, 99, 104, 101, 100, 45];
    assert(path@ =~= tmp_socket_prefix());
    push_decimal(&mut path, uid);
    let mut suffix: Vec<u8> = vec![46u8, 115, 111, 99, 107];
    assert(suffix@ =~= socket_suffix());
    path.append(&mut suffix);
    path
}

/// Whether a client may start the daemon when none answers: not when
/// `--no-spawn` was given, nor when `OP_CACHED_NO_SPAWN` is set to something
/// non-empty.
pub fn resolve_auto_spawn(no_spawn: bool, env: Option<Vec<u8>>) -> (auto_spawn: bool)
    ensures
        auto_spawn == (!no_spawn && non_empty(opt_bytes(env)) is None),
{
    if no_spawn {
        return false;
    }
    match env {
        Some(v) => v.len() == 0,
        None => true,
    }
}

} // verus!
