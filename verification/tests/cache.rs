use op_cached::cache::Cache;
use op_cached::time::{Duration, Instant, SystemTime};

fn secs(n: u64) -> Duration {
    Duration::from_secs(n)
}

fn start() -> Instant {
    Instant::from_nanos(5_000_000_000_000)
}

#[test]
fn url_hit_before_ttl_miss_after() {
    let mut c = Cache::new(secs(10));
    let t0 = start();
    c.insert_url("op://v/i/f", b"ct".to_vec(), t0);
    assert_eq!(c.get_url("op://v/i/f", t0.after(secs(9))), Some(&b"ct"[..]));
    assert_eq!(c.get_url("op://v/i/f", t0.after(secs(10))), None);
    assert_eq!(c.len(), 0, "expired entry is removed on get");
}

#[test]
fn unknown_key_is_miss() {
    let mut c = Cache::new(secs(10));
    assert_eq!(c.get_url("op://x", start()), None);
}

#[test]
fn insert_overwrites_and_refreshes() {
    let mut c = Cache::new(secs(10));
    let t0 = start();
    c.insert_url("k", b"a".to_vec(), t0);
    c.insert_url("k", b"b".to_vec(), t0.after(secs(5)));
    assert_eq!(c.get_url("k", t0.after(secs(14))), Some(&b"b"[..]));
    assert_eq!(c.len(), 1);
}

#[test]
fn url_and_file_namespaces_do_not_collide() {
    let mut c = Cache::new(secs(10));
    let t0 = start();
    let m = SystemTime::unix_epoch();
    c.insert_url("x", b"u".to_vec(), t0);
    c.insert_file("x", m, b"f".to_vec(), t0);
    assert_eq!(c.len(), 2);
    assert_eq!(c.get_url("x", t0), Some(&b"u"[..]));
    assert_eq!(c.get_file("x", m, t0), Some(&b"f"[..]));
}

#[test]
fn file_hit_with_same_mtime_miss_when_changed() {
    let mut c = Cache::new(secs(10));
    let t0 = start();
    let m1 = SystemTime::unix_epoch().after(secs(100));
    let m2 = SystemTime::unix_epoch().after(secs(200));
    c.insert_file("/a", m1, b"ct".to_vec(), t0);
    assert_eq!(c.get_file("/a", m1, t0.after(secs(1))), Some(&b"ct"[..]));
    assert_eq!(c.get_file("/a", m2, t0.after(secs(2))), None);
    assert_eq!(c.len(), 0, "mtime-mismatched entry is removed");
}

#[test]
fn file_entry_also_expires_by_ttl() {
    let mut c = Cache::new(secs(10));
    let t0 = start();
    let m = SystemTime::unix_epoch();
    c.insert_file("/a", m, vec![], t0);
    assert_eq!(c.get_file("/a", m, t0.after(secs(10))), None);
}

#[test]
fn clear_removes_everything() {
    let mut c = Cache::new(secs(10));
    let t0 = start();
    c.insert_url("a", vec![], t0);
    c.insert_file("b", SystemTime::unix_epoch(), vec![], t0);
    c.clear();
    assert_eq!(c.len(), 0);
}

#[test]
fn sweep_removes_only_expired() {
    let mut c = Cache::new(secs(10));
    let t0 = start();
    c.insert_url("old", vec![], t0);
    c.insert_url("new", vec![], t0.after(secs(8)));
    assert_eq!(c.sweep(t0.after(secs(12))), 1);
    assert_eq!(c.len(), 1);
    assert!(c.get_url("new", t0.after(secs(12))).is_some());
}

// ---- further cases ----

#[test]
fn ttl_is_kept() {
    let c = Cache::new(secs(42));
    assert_eq!(c.ttl(), secs(42));
    assert_eq!(c.ttl().as_secs(), 42);
    assert_eq!(c.len(), 0);
}

#[test]
fn hit_leaves_cache_unchanged_and_repeats() {
    let mut c = Cache::new(secs(10));
    let t0 = start();
    c.insert_url("op://a", b"x".to_vec(), t0);
    c.insert_url("op://b", b"y".to_vec(), t0);
    assert_eq!(c.get_url("op://a", t0.after(secs(3))), Some(&b"x"[..]));
    assert_eq!(c.get_url("op://a", t0.after(secs(3))), Some(&b"x"[..]));
    assert_eq!(c.len(), 2);
}

#[test]
fn miss_on_unknown_key_keeps_other_entries() {
    let mut c = Cache::new(secs(10));
    let t0 = start();
    c.insert_url("op://a", b"x".to_vec(), t0);
    assert_eq!(c.get_url("op://z", t0.after(secs(20))), None);
    assert_eq!(c.len(), 1, "only a stale entry under the looked-up key is dropped");
}

#[test]
fn url_lookup_does_not_see_file_entry() {
    let mut c = Cache::new(secs(10));
    let t0 = start();
    c.insert_file("p", SystemTime::unix_epoch(), b"f".to_vec(), t0);
    assert_eq!(c.get_url("p", t0), None);
    assert_eq!(c.len(), 1);
}

#[test]
fn zero_ttl_expires_at_once() {
    let mut c = Cache::new(secs(0));
    let t0 = start();
    c.insert_url("op://a", b"x".to_vec(), t0);
    assert_eq!(c.get_url("op://a", t0), None);
    assert_eq!(c.len(), 0);
}

#[test]
fn lookup_before_insertion_time_counts_as_no_time_elapsed() {
    let mut c = Cache::new(secs(10));
    let t0 = start();
    c.insert_url("op://a", b"x".to_vec(), t0.after(secs(5)));
    assert_eq!(c.get_url("op://a", t0), Some(&b"x"[..]));
}

#[test]
fn sweep_twice_removes_nothing_more() {
    let mut c = Cache::new(secs(10));
    let t0 = start();
    c.insert_url("a", vec![1], t0);
    c.insert_url("b", vec![2], t0.after(secs(1)));
    c.insert_file("c", SystemTime::unix_epoch(), vec![3], t0.after(secs(9)));
    let now = t0.after(secs(11));
    assert_eq!(c.sweep(now), 2);
    assert_eq!(c.sweep(now), 0);
    assert_eq!(c.len(), 1);
    assert_eq!(c.get_file("c", SystemTime::unix_epoch(), now), Some(&[3u8][..]));
}

#[test]
fn sweep_on_empty_cache() {
    let mut c = Cache::new(secs(10));
    assert_eq!(c.sweep(start()), 0);
}

#[test]
fn mtime_before_epoch_is_a_distinct_time() {
    let mut c = Cache::new(secs(10));
    let t0 = start();
    let before = SystemTime::from_nanos(-1);
    c.insert_file("/t", before, b"ct".to_vec(), t0);
    assert_eq!(c.get_file("/t", SystemTime::unix_epoch(), t0), None);
    assert_eq!(c.len(), 0);
}

#[test]
fn time_helpers() {
    let t = Instant::from_nanos(10);
    assert_eq!(t.after(Duration::from_nanos(5)).nanos, 15);
    assert_eq!(Instant::from_nanos(15).duration_since(t).as_nanos(), 5);
    assert_eq!(t.duration_since(Instant::from_nanos(15)).as_nanos(), 0);
    assert_eq!(Duration::from_nanos(2_999_999_999).as_secs(), 2);
    assert_eq!(Duration::from_secs(3).as_nanos(), 3_000_000_000);
    assert_eq!(Duration::from_nanos(u128::MAX).as_secs(), u64::MAX);
    assert_eq!(SystemTime::from_nanos(-5).after(Duration::from_nanos(5)), SystemTime::unix_epoch());
}
