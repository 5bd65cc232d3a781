//! In-memory store of GPG-encrypted values.
//!
//! Keys are namespaced: `url:<op://...>` for `op read` results and
//! `file:<abs path>` for `op inject` results. An entry lives for the cache's
//! TTL from the moment it was stored; a file entry is also bound to the
//! modification time of its template. A lookup that finds a stale entry drops
//! it, and `sweep` drops every expired entry at once.
//!
//! The store is a vector of entries whose keys are pairwise distinct; its
//! abstract value is a map from key strings to entries. It is not a
//! `HashMap<String, _>`: vstd states what `HashMap` operations do only for key
//! types that obey its key model (`obeys_key_model`), and it gives `String`
//! no such axiom, so none of those postconditions would be available here.
use vstd::prelude::*;

use crate::time::{elapsed, Duration, Instant, SystemTime};

verus! {

/// The namespace part of a key: `url:` or `file:`.
#[derive(Clone, Copy, Debug, PartialEq, Eq, Structural)]
enum Namespace {
    Url,
    File,
}

/// The characters `url:`.
pub open spec fn url_prefix() -> Seq<char> {
    seq!['u', 'r', 'l', ':']
}

/// The characters `file:`.
pub open spec fn file_prefix() -> Seq<char> {
    seq!['f', 'i', 'l', 'e', ':']
}

/// The key under which the result of `op read <url>` is stored.
pub open spec fn url_key(url: Seq<char>) -> Seq<char> {
    url_prefix() + url
}

/// The key under which the result of `op inject -i <path>` is stored.
pub open spec fn file_key(path: Seq<char>) -> Seq<char> {
    file_prefix() + path
}

spec fn namespaced_key(ns: Namespace, name: Seq<char>) -> Seq<char> {
    match ns {
        Namespace::Url => url_key(name),
        Namespace::File => file_key(name),
    }
}

/// What the cache knows of one stored value.
pub struct EntryView {
    pub ciphertext: Seq<u8>,
    /// When it was stored, in nanoseconds on the monotonic clock.
    pub inserted_at: nat,
    /// The template's modification time for a file entry; `None` for a URL entry.
    pub mtime: Option<int>,
}

/// The abstract value of a cache: its entries by key, and its TTL in nanoseconds.
pub struct CacheView {
    pub entries: Map<Seq<char>, EntryView>,
    pub ttl: nat,
}

/// An entry has outlived the TTL at `now`.
pub open spec fn expired(e: EntryView, now: nat, ttl: nat) -> bool {
    elapsed(now, e.inserted_at) >= ttl
}

/// An entry may not be served for a lookup that expects modification time
/// `mtime`: it has expired, or it was recorded with another modification time.
pub open spec fn stale(e: EntryView, now: nat, ttl: nat, mtime: Option<int>) -> bool {
    expired(e, now, ttl) || e.mtime != mtime
}

/// The view of an optional `SystemTime`.
pub open spec fn mtime_view(m: Option<SystemTime>) -> Option<int> {
    match m {
        Some(t) => Some(t@),
        None => None,
    }
}

/// The view of an optional byte slice.
pub open spec fn bytes_view(r: Option<&[u8]>) -> Option<Seq<u8>> {
    match r {
        Some(b) => Some(b@),
        None => None,
    }
}

impl CacheView {
    /// Number of stored entries.
    pub open spec fn len(self) -> nat {
        self.entries.dom().len()
    }

    /// What a lookup of `key` at `now`, expecting `mtime`, hands back.
    pub open spec fn lookup(self, key: Seq<char>, now: nat, mtime: Option<int>) -> Option<Seq<u8>> {
        if self.entries.contains_key(key) && !stale(self.entries[key], now, self.ttl, mtime) {
            Some(self.entries[key].ciphertext)
        } else {
            None
        }
    }

    /// The cache after a lookup of `key` at `now`, expecting `mtime`: a stale
    /// entry under `key` is gone, everything else is as it was.
    pub open spec fn after_lookup(self, key: Seq<char>, now: nat, mtime: Option<int>) -> CacheView {
        if self.entries.contains_key(key) && stale(self.entries[key], now, self.ttl, mtime) {
            CacheView { entries: self.entries.remove(key), ttl: self.ttl }
        } else {
            self
        }
    }

    /// The cache after storing `ciphertext` under `key` at `now`.
    pub open spec fn store(self, key: Seq<char>, ciphertext: Seq<u8>, now: nat, mtime: Option<int>) -> CacheView {
        CacheView {
            entries: self.entries.insert(
                key,
                EntryView { ciphertext, inserted_at: now, mtime },
            ),
            ttl: self.ttl,
        }
    }

    /// The cache with every entry that has expired at `now` dropped.
    pub open spec fn swept(self, now: nat) -> CacheView {
        CacheView {
            entries: Map::new(
                |k: Seq<char>| self.entries.contains_key(k) && !expired(self.entries[k], now, self.ttl),
                |k: Seq<char>| self.entries[k],
            ),
            ttl: self.ttl,
        }
    }
}

/// One call on a cache, as it acts on the cache's abstract value:
/// `get_url`/`get_file` are lookups, `insert_url`/`insert_file` are stores.
pub enum CacheOp {
    Lookup { key: Seq<char>, now: nat, mtime: Option<int> },
    Store { key: Seq<char>, ciphertext: Seq<u8>, now: nat, mtime: Option<int> },
    Clear,
    Sweep { now: nat },
}

impl CacheView {
    /// The cache with all entries dropped.
    pub open spec fn cleared(self) -> CacheView {
        CacheView { entries: Map::empty(), ttl: self.ttl }
    }

    /// The cache after one call.
    pub open spec fn apply(self, op: CacheOp) -> CacheView {
        match op {
            CacheOp::Lookup { key, now, mtime } => self.after_lookup(key, now, mtime),
            CacheOp::Store { key, ciphertext, now, mtime } => self.store(key, ciphertext, now, mtime),
            CacheOp::Clear => self.cleared(),
            CacheOp::Sweep { now } => self.swept(now),
        }
    }

    /// The cache after a sequence of calls, in order.
    pub open spec fn apply_all(self, ops: Seq<CacheOp>) -> CacheView
        decreases ops.len(),
    {
        if ops.len() == 0 {
            self
        } else {
            self.apply_all(ops.drop_last()).apply(ops.last())
        }
    }
}

/// The keys that may be present after `ops`: those stored since the last
/// clear, and, when `ops` holds no clear, those present before.
pub open spec fn keys_since_clear(c: CacheView, ops: Seq<CacheOp>) -> Set<Seq<char>>
    decreases ops.len(),
{
    if ops.len() == 0 {
        c.entries.dom()
    } else {
        match ops.last() {
            CacheOp::Clear => Set::empty(),
            CacheOp::Store { key, ciphertext, now, mtime } => keys_since_clear(c, ops.drop_last()).insert(key),
            _ => keys_since_clear(c, ops.drop_last()),
        }
    }
}

/// No call in `ops` after index `i` can drop the entry under `key`: each is a
/// store (of any key) or a lookup of another key.
pub open spec fn untouched_after(ops: Seq<CacheOp>, i: int, key: Seq<char>) -> bool {
    forall|j: int|
        i < j < ops.len() ==> match #[trigger] ops[j] {
            CacheOp::Store { .. } => true,
            CacheOp::Lookup { key: k, .. } => k != key,
            _ => false,
        }
}

struct Entry {
    ns: Namespace,
    name: String,
    ciphertext: Vec<u8>,
    inserted_at: Instant,
    mtime: Option<SystemTime>,
}

impl Entry {
    spec fn key(self) -> Seq<char> {
        namespaced_key(self.ns, self.name@)
    }

    spec fn abs(self) -> EntryView {
        EntryView {
            ciphertext: self.ciphertext@,
            inserted_at: self.inserted_at@,
            mtime: mtime_view(self.mtime),
        }
    }
}

spec fn entries_map(s: Seq<Entry>) -> Map<Seq<char>, EntryView>
    decreases s.len(),
{
    if s.len() == 0 {
        Map::empty()
    } else {
        entries_map(s.drop_last()).insert(s.last().key(), s.last().abs())
    }
}

spec fn keys_distinct(s: Seq<Entry>) -> bool {
    forall|i: int, j: int|
        0 <= i < s.len() && 0 <= j < s.len() && i != j ==> #[trigger] s[i].key() != #[trigger] s[j].key()
}

/// The entries of `s` that have not expired at `now`, in order.
spec fn live_entries(s: Seq<Entry>, now: nat, ttl: nat) -> Seq<Entry>
    decreases s.len(),
{
    if s.len() == 0 {
        Seq::empty()
    } else {
        let rest = live_entries(s.drop_last(), now, ttl);
        if expired(s.last().abs(), now, ttl) {
            rest
        } else {
            rest.push(s.last())
        }
    }
}

proof fn lemma_key_injective(ns1: Namespace, a: Seq<char>, ns2: Namespace, b: Seq<char>)
    ensures
        namespaced_key(ns1, a) == namespaced_key(ns2, b) <==> (ns1 == ns2 && a == b),
{
    let k1 = namespaced_key(ns1, a);
    let k2 = namespaced_key(ns2, b);
    if ns1 != ns2 {
        assert(k1[0] != k2[0]);
    } else if k1 == k2 {
        let p = match ns1 {
            Namespace::Url => url_prefix(),
            Namespace::File => file_prefix(),
        };
        assert(k1.subrange(p.len() as int, k1.len() as int) =~= a);
        assert(k2.subrange(p.len() as int, k2.len() as int) =~= b);
    }
}

proof fn lemma_contains(s: Seq<Entry>, k: Seq<char>)
    ensures
        entries_map(s).dom().finite(),
        entries_map(s).contains_key(k) <==> exists|i: int| 0 <= i < s.len() && #[trigger] s[i].key() == k,
    decreases s.len(),
{
    if s.len() > 0 {
        let d = s.drop_last();
        lemma_contains(d, k);
        if entries_map(s).contains_key(k) {
            if k == s.last().key() {
                assert(s[s.len() - 1].key() == k);
            } else {
                let i = choose|i: int| 0 <= i < d.len() && #[trigger] d[i].key() == k;
                assert(s[i] == d[i]);
            }
        }
        if exists|i: int| 0 <= i < s.len() && #[trigger] s[i].key() == k {
            let i = choose|i: int| 0 <= i < s.len() && #[trigger] s[i].key() == k;
            if i < s.len() - 1 {
                assert(d[i] == s[i]);
            }
        }
    }
}

proof fn lemma_value(s: Seq<Entry>, i: int)
    requires
        keys_distinct(s),
        0 <= i < s.len(),
    ensures
        entries_map(s).contains_key(s[i].key()),
        entries_map(s)[s[i].key()] == s[i].abs(),
    decreases s.len(),
{
    let d = s.drop_last();
    if i < s.len() - 1 {
        assert(d[i] == s[i]);
        assert(s[i].key() != s[s.len() - 1].key());
        lemma_value(d, i);
    }
}

proof fn lemma_len(s: Seq<Entry>)
    requires
        keys_distinct(s),
    ensures
        entries_map(s).dom().finite(),
        entries_map(s).dom().len() == s.len(),
    decreases s.len(),
{
    if s.len() > 0 {
        let d = s.drop_last();
        lemma_len(d);
        lemma_contains(d, s.last().key());
        if entries_map(d).contains_key(s.last().key()) {
            let i = choose|i: int| 0 <= i < d.len() && #[trigger] d[i].key() == s.last().key();
            assert(s[i] == d[i]);
            assert(s[i].key() == s[s.len() - 1].key());
        }
    }
}

proof fn lemma_update(s: Seq<Entry>, i: int, e: Entry)
    requires
        keys_distinct(s),
        0 <= i < s.len(),
        e.key() == s[i].key(),
    ensures
        keys_distinct(s.update(i, e)),
        entries_map(s.update(i, e)) == entries_map(s).insert(e.key(), e.abs()),
    decreases s.len(),
{
    let t = s.update(i, e);
    assert forall|a: int, b: int|
        0 <= a < t.len() && 0 <= b < t.len() && a != b implies #[trigger] t[a].key() != #[trigger] t[b].key() by {
        assert(t[a].key() == s[a].key());
        assert(t[b].key() == s[b].key());
    }
    let d = s.drop_last();
    if i == s.len() - 1 {
        assert(t.drop_last() =~= d);
        assert(entries_map(t) =~= entries_map(s).insert(e.key(), e.abs()));
    } else {
        assert(t.drop_last() =~= d.update(i, e));
        assert(d[i] == s[i]);
        assert(s[i].key() != s[s.len() - 1].key());
        lemma_update(d, i, e);
        assert(entries_map(t) =~= entries_map(s).insert(e.key(), e.abs()));
    }
}

proof fn lemma_remove(s: Seq<Entry>, i: int)
    requires
        keys_distinct(s),
        0 <= i < s.len(),
    ensures
        keys_distinct(s.remove(i)),
        entries_map(s.remove(i)) == entries_map(s).remove(s[i].key()),
    decreases s.len(),
{
    let t = s.remove(i);
    assert forall|a: int, b: int|
        0 <= a < t.len() && 0 <= b < t.len() && a != b implies #[trigger] t[a].key() != #[trigger] t[b].key() by {
        let a1 = if a < i { a } else { a + 1 };
        let b1 = if b < i { b } else { b + 1 };
        assert(t[a] == s[a1]);
        assert(t[b] == s[b1]);
    }
    let d = s.drop_last();
    let k = s[i].key();
    if i == s.len() - 1 {
        assert(t =~= d);
        lemma_contains(d, k);
        if entries_map(d).contains_key(k) {
            let j = choose|j: int| 0 <= j < d.len() && #[trigger] d[j].key() == k;
            assert(s[j] == d[j]);
        }
        assert(entries_map(t) =~= entries_map(s).remove(k));
    } else {
        assert(t.drop_last() =~= d.remove(i));
        assert(t.last() == s.last());
        assert(d[i] == s[i]);
        assert(s[i].key() != s[s.len() - 1].key());
        lemma_remove(d, i);
        assert(entries_map(t) =~= entries_map(s).remove(k));
    }
}

proof fn lemma_live(s: Seq<Entry>, now: nat, ttl: nat)
    requires
        keys_distinct(s),
    ensures
        keys_distinct(live_entries(s, now, ttl)),
        live_entries(s, now, ttl).len() <= s.len(),
        entries_map(live_entries(s, now, ttl)) == (CacheView { entries: entries_map(s), ttl }).swept(now).entries,
    decreases s.len(),
{
    let target = (CacheView { entries: entries_map(s), ttl }).swept(now).entries;
    if s.len() == 0 {
        assert(entries_map(live_entries(s, now, ttl)) =~= target);
    } else {
        let d = s.drop_last();
        let last = s.last();
        assert(keys_distinct(d)) by {
            assert forall|a: int, b: int|
                0 <= a < d.len() && 0 <= b < d.len() && a != b implies #[trigger] d[a].key() != #[trigger] d[b].key() by {
                assert(d[a] == s[a]);
                assert(d[b] == s[b]);
            }
        }
        lemma_live(d, now, ttl);
        let f = live_entries(d, now, ttl);
        lemma_contains(d, last.key());
        assert(!entries_map(d).contains_key(last.key())) by {
            if entries_map(d).contains_key(last.key()) {
                let j = choose|j: int| 0 <= j < d.len() && #[trigger] d[j].key() == last.key();
                assert(s[j] == d[j]);
                assert(s[j].key() == s[s.len() - 1].key());
            }
        }
        if expired(last.abs(), now, ttl) {
            assert(entries_map(live_entries(s, now, ttl)) =~= target);
        } else {
            let g = f.push(last);
            lemma_contains(f, last.key());
            assert forall|a: int, b: int|
                0 <= a < g.len() && 0 <= b < g.len() && a != b implies #[trigger] g[a].key() != #[trigger] g[b].key() by {
                if a == f.len() {
                    assert(g[b] == f[b]);
                } else if b == f.len() {
                    assert(g[a] == f[a]);
                } else {
                    assert(g[a] == f[a]);
                    assert(g[b] == f[b]);
                }
            }
            assert(g.drop_last() =~= f);
            assert(entries_map(live_entries(s, now, ttl)) =~= target);
        }
    }
}

/// Whether two optional modification times are the same.
fn same_mtime(a: Option<SystemTime>, b: Option<SystemTime>) -> (r: bool)
    ensures
        r == (mtime_view(a) == mtime_view(b)),
{
    match (a, b) {
        (Some(x), Some(y)) => x.nanos == y.nanos,
        (None, None) => true,
        _ => false,
    }
}

/// The index of the entry stored under `ns` and `name`, if there is one.
fn find(entries: &Vec<Entry>, ns: Namespace, name: &String) -> (r: Option<usize>)
    ensures
        match r {
            Some(i) => i < entries.len() && entries@[i as int].key() == namespaced_key(ns, name@),
            None => forall|i: int| 0 <= i < entries.len() ==> #[trigger] entries@[i].key() != namespaced_key(ns, name@),
        },
{
    let mut i: usize = 0;
    while i < entries.len()
        invariant
            i <= entries.len(),
            forall|j: int| 0 <= j < i ==> #[trigger] entries@[j].key() != namespaced_key(ns, name@),
        decreases entries.len() - i,
    {
        proof {
            lemma_key_injective(entries@[i as int].ns, entries@[i as int].name@, ns, name@);
        }
        if entries[i].ns == ns && entries[i].name == *name {
            return Some(i);
        }
        i += 1;
    }
    None
}

/// In-memory store of GPG-encrypted values.
/// Keys are namespaced: `url:<op://...>` for reads, `file:<abs path>` for injects.
pub struct Cache {
    entries: Vec<Entry>,
    ttl: Duration,
}

impl View for Cache {
    type V = CacheView;

    closed spec fn view(&self) -> CacheView {
        CacheView { entries: entries_map(self.entries@), ttl: self.ttl@ }
    }
}

impl Cache {
    #[verifier::type_invariant]
    spec fn well_formed(self) -> bool {
        keys_distinct(self.entries@)
    }

    /// An empty cache whose entries live for `ttl`.
    pub fn new(ttl: Duration) -> (c: Cache)
        ensures
            c@.entries == Map::<Seq<char>, EntryView>::empty(),
            c@.ttl == ttl@,
            c@.entries.dom().finite(),
    {
        let c = Cache { entries: Vec::new(), ttl };
        assert(c@.entries =~= Map::<Seq<char>, EntryView>::empty());
        c
    }

    /// How long an entry lives.
    pub fn ttl(&self) -> (d: Duration)
        ensures
            d@ == self@.ttl,
    {
        self.ttl
    }

    /// Number of stored entries, expired ones included until they are dropped.
    pub fn len(&self) -> (n: usize)
        ensures
            n == self@.len(),
            self@.entries.dom().finite(),
    {
        proof {
            use_type_invariant(self);
            lemma_len(self.entries@);
        }
        self.entries.len()
    }

    /// Ciphertext for an `op read` URL if present and not expired.
    pub fn get_url(&mut self, url: &str, now: Instant) -> (r: Option<&[u8]>)
        ensures
            bytes_view(r) == old(self)@.lookup(url_key(url@), now@, None),
            final(self)@ == old(self)@.after_lookup(url_key(url@), now@, None),
            final(self)@.entries.dom().finite(),
    {
        self.get(Namespace::Url, url, now, None)
    }

    /// Stores the ciphertext of an `op read` URL, stamped `now`.
    pub fn insert_url(&mut self, url: &str, ciphertext: Vec<u8>, now: Instant)
        ensures
            final(self)@ == old(self)@.store(url_key(url@), ciphertext@, now@, None),
            final(self)@.entries.dom().finite(),
    {
        self.insert(Namespace::Url, url, ciphertext, now, None)
    }

    /// Ciphertext for an `op inject` of `path` if present, not expired, and the
    /// recorded mtime matches `mtime`. A stale entry is removed.
    pub fn get_file(&mut self, path: &str, mtime: SystemTime, now: Instant) -> (r: Option<&[u8]>)
        ensures
            bytes_view(r) == old(self)@.lookup(file_key(path@), now@, Some(mtime@)),
            final(self)@ == old(self)@.after_lookup(file_key(path@), now@, Some(mtime@)),
            final(self)@.entries.dom().finite(),
    {
        self.get(Namespace::File, path, now, Some(mtime))
    }

    /// Stores the rendered ciphertext of `path`, stamped `now` and bound to `mtime`.
    pub fn insert_file(&mut self, path: &str, mtime: SystemTime, ciphertext: Vec<u8>, now: Instant)
        ensures
            final(self)@ == old(self)@.store(file_key(path@), ciphertext@, now@, Some(mtime@)),
            final(self)@.entries.dom().finite(),
    {
        self.insert(Namespace::File, path, ciphertext, now, Some(mtime))
    }

    fn get(&mut self, ns: Namespace, name: &str, now: Instant, mtime: Option<SystemTime>) -> (r: Option<&[u8]>)
        ensures
            bytes_view(r) == old(self)@.lookup(namespaced_key(ns, name@), now@, mtime_view(mtime)),
            final(self)@ == old(self)@.after_lookup(namespaced_key(ns, name@), now@, mtime_view(mtime)),
            final(self)@.entries.dom().finite(),
    {
        proof {
            use_type_invariant(&*self);
        }
        let key_name = name.to_owned();
        let ghost key = namespaced_key(ns, name@);
        proof {
            lemma_contains(self.entries@, key);
        }
        match find(&self.entries, ns, &key_name) {
            None => {
                proof {
                    lemma_contains(self.entries@, key);
                }
                None
            },
            Some(i) => {
                proof {
                    lemma_value(self.entries@, i as int);
                }
                let stale = now.duration_since(self.entries[i].inserted_at).nanos >= self.ttl.nanos
                    || !same_mtime(self.entries[i].mtime, mtime);
                if stale {
                    let mut entries: Vec<Entry> = Vec::new();
                    std::mem::swap(&mut entries, &mut self.entries);
                    proof {
                        lemma_remove(entries@, i as int);
                    }
                    entries.remove(i);
                    self.entries = entries;
                    None
                } else {
                    Some(self.entries[i].ciphertext.as_slice())
                }
            },
        }
    }

    fn insert(&mut self, ns: Namespace, name: &str, ciphertext: Vec<u8>, now: Instant, mtime: Option<SystemTime>)
        ensures
            final(self)@ == old(self)@.store(namespaced_key(ns, name@), ciphertext@, now@, mtime_view(mtime)),
            final(self)@.entries.dom().finite(),
    {
        proof {
            use_type_invariant(&*self);
        }
        let key_name = name.to_owned();
        let ghost key = namespaced_key(ns, name@);
        proof {
            lemma_contains(self.entries@, key);
        }
        let found = find(&self.entries, ns, &key_name);
        let entry = Entry { ns, name: key_name, ciphertext, inserted_at: now, mtime };
        let mut entries: Vec<Entry> = Vec::new();
        std::mem::swap(&mut entries, &mut self.entries);
        let ghost before = entries@;
        match found {
            Some(i) => {
                proof {
                    lemma_update(before, i as int, entry);
                }
                entries.set(i, entry);
            },
            None => {
                proof {
                    assert(before.push(entry).drop_last() =~= before);
                    assert forall|a: int, b: int|
                        0 <= a < before.len() + 1 && 0 <= b < before.len() + 1 && a != b
                        implies #[trigger] before.push(entry)[a].key() != #[trigger] before.push(entry)[b].key() by {
                        if a < before.len() {
                            assert(before.push(entry)[a] == before[a]);
                        }
                        if b < before.len() {
                            assert(before.push(entry)[b] == before[b]);
                        }
                    }
                }
                entries.push(entry);
            },
        }
        self.entries = entries;
    }

    /// Drops all entries.
    pub fn clear(&mut self)
        ensures
            final(self)@ == old(self)@.cleared(),
            final(self)@.entries.dom().finite(),
    {
        let mut entries: Vec<Entry> = Vec::new();
        std::mem::swap(&mut entries, &mut self.entries);
        entries.clear();
        self.entries = entries;
        assert(self@.entries =~= Map::<Seq<char>, EntryView>::empty());
    }

    /// Drop all expired entries. Returns the number removed.
    pub fn sweep(&mut self, now: Instant) -> (removed: usize)
        ensures
            final(self)@ == old(self)@.swept(now@),
            removed == old(self)@.len() - final(self)@.len(),
            final(self)@.entries.dom().finite(),
    {
        proof {
            use_type_invariant(&*self);
        }
        let ttl = self.ttl;
        let mut entries: Vec<Entry> = Vec::new();
        std::mem::swap(&mut entries, &mut self.entries);
        let ghost old_s = entries@;
        let before = entries.len();
        let mut i: usize = 0;
        let ghost mut j: int = 0;
        proof {
            assert(old_s.take(0) =~= Seq::<Entry>::empty());
            assert(live_entries(old_s.take(0), now@, ttl@) + old_s.skip(0) =~= old_s);
        }
        while i < entries.len()
            invariant
                0 <= j <= old_s.len(),
                entries@ == live_entries(old_s.take(j), now@, ttl@) + old_s.skip(j),
                i == live_entries(old_s.take(j), now@, ttl@).len(),
            decreases entries.len() - i,
        {
            let ghost f = live_entries(old_s.take(j), now@, ttl@);
            proof {
                assert(entries@[i as int] == old_s[j]);
                assert(old_s.take(j + 1).drop_last() =~= old_s.take(j));
                assert(old_s.take(j + 1).last() == old_s[j]);
            }
            if now.duration_since(entries[i].inserted_at).nanos >= ttl.nanos {
                entries.remove(i);
                proof {
                    assert(entries@ =~= f + old_s.skip(j + 1));
                    j = j + 1;
                }
            } else {
                proof {
                    assert(f + old_s.skip(j) =~= f.push(old_s[j]) + old_s.skip(j + 1));
                    j = j + 1;
                }
                i += 1;
            }
        }
        proof {
            assert(old_s.take(j) =~= old_s);
            assert(entries@ =~= live_entries(old_s, now@, ttl@));
            lemma_live(old_s, now@, ttl@);
            lemma_len(old_s);
            lemma_len(entries@);
        }
        let after = entries.len();
        self.entries = entries;
        before - after
    }
}

/// Read after write: a value stored under `key` at `stored_at` is handed back by a
/// lookup at `now` that expects the same modification time exactly while less
/// than the TTL has passed since it was stored; once the TTL has passed the
/// lookup misses and the entry is gone.
pub proof fn law_lookup_after_store(c: CacheView, key: Seq<char>, ct: Seq<u8>, stored_at: nat, mtime: Option<int>, now: nat)
    ensures
        c.store(key, ct, stored_at, mtime).lookup(key, now, mtime)
            == (if elapsed(now, stored_at) < c.ttl { Some(ct) } else { None }),
        c.store(key, ct, stored_at, mtime).after_lookup(key, now, mtime).entries
            == (if elapsed(now, stored_at) < c.ttl {
                c.store(key, ct, stored_at, mtime).entries
            } else {
                c.entries.remove(key)
            }),
{
    assert(c.store(key, ct, stored_at, mtime).entries.remove(key) =~= c.entries.remove(key));
}

/// A lookup that expects another modification time than the one an entry was
/// stored with misses, and drops that entry.
pub proof fn law_changed_mtime_misses(c: CacheView, key: Seq<char>, ct: Seq<u8>, stored_at: nat, stored_mtime: Option<int>, mtime: Option<int>, now: nat)
    requires
        stored_mtime != mtime,
    ensures
        c.store(key, ct, stored_at, stored_mtime).lookup(key, now, mtime) is None,
        !c.store(key, ct, stored_at, stored_mtime).after_lookup(key, now, mtime).entries.contains_key(key),
{
}

/// The `url:` and `file:` namespaces never share a key, so storing a URL
/// value changes no lookup of a file, and storing a file value changes no
/// lookup of a URL.
pub proof fn law_namespaces_disjoint(c: CacheView, url: Seq<char>, path: Seq<char>, ct: Seq<u8>, stored_at: nat, stored_mtime: Option<int>, mtime: Option<int>, now: nat)
    ensures
        url_key(url) != file_key(path),
        c.store(url_key(url), ct, stored_at, stored_mtime).lookup(file_key(path), now, mtime)
            == c.lookup(file_key(path), now, mtime),
        c.store(file_key(path), ct, stored_at, stored_mtime).lookup(url_key(url), now, mtime)
            == c.lookup(url_key(url), now, mtime),
{
    assert(url_key(url)[0] != file_key(path)[0]);
}

/// Storing under a key that already holds a value replaces it: only the
/// latest ciphertext, timestamp and modification time remain.
pub proof fn law_store_overwrites(c: CacheView, key: Seq<char>, a: Seq<u8>, t1: nat, m1: Option<int>, b: Seq<u8>, t2: nat, m2: Option<int>)
    ensures
        c.store(key, a, t1, m1).store(key, b, t2, m2) == c.store(key, b, t2, m2),
{
    assert(c.store(key, a, t1, m1).store(key, b, t2, m2).entries =~= c.store(key, b, t2, m2).entries);
}

/// Expiry is final: an entry expired at `now` is expired at every later instant.
pub proof fn law_expiry_is_final(e: EntryView, ttl: nat, now: nat, later: nat)
    requires
        expired(e, now, ttl),
        now <= later,
    ensures
        expired(e, later, ttl),
{
}

/// A hit leaves the cache as it was, and a lookup repeated at the same
/// instant gives the same answer.
pub proof fn law_lookup_repeatable(c: CacheView, key: Seq<char>, now: nat, mtime: Option<int>)
    ensures
        c.lookup(key, now, mtime) is Some ==> c.after_lookup(key, now, mtime) == c,
        c.after_lookup(key, now, mtime).lookup(key, now, mtime) == c.lookup(key, now, mtime),
        c.after_lookup(key, now, mtime).after_lookup(key, now, mtime) == c.after_lookup(key, now, mtime),
{
}

/// Sweeping at `now` drops exactly what has expired: no lookup made at the
/// same instant answers differently afterwards, nothing expired remains, and a
/// second sweep at the same instant changes nothing.
pub proof fn law_sweep_is_invisible(c: CacheView, now: nat, key: Seq<char>, mtime: Option<int>)
    ensures
        c.swept(now).lookup(key, now, mtime) == c.lookup(key, now, mtime),
        forall|k: Seq<char>| #[trigger] c.swept(now).entries.contains_key(k) ==> !expired(c.swept(now).entries[k], now, c.ttl),
        c.swept(now).swept(now) == c.swept(now),
{
    assert(c.swept(now).swept(now).entries =~= c.swept(now).entries);
}

/// A sweep only removes: every entry it keeps is exactly the entry that was
/// there (same ciphertext, same storage time, same modification time), every
/// entry it removes had expired, and every entry that had not expired is kept.
/// So at any instant from the sweep on, every lookup answers as it would have
/// without the sweep: an entry stored with a TTL still expires on time.
pub proof fn law_sweep_only_removes(c: CacheView, now: nat, later: nat, key: Seq<char>, mtime: Option<int>)
    requires
        now <= later,
    ensures
        forall|k: Seq<char>| #[trigger] c.swept(now).entries.contains_key(k) ==> (
            c.entries.contains_key(k) && c.swept(now).entries[k] == c.entries[k]
        ),
        forall|k: Seq<char>| #[trigger] c.entries.contains_key(k) ==> (
            c.swept(now).entries.contains_key(k) <==> elapsed(now, c.entries[k].inserted_at) < c.ttl
        ),
        c.swept(now).ttl == c.ttl,
        c.swept(now).lookup(key, later, mtime) == c.lookup(key, later, mtime),
{
    if c.entries.contains_key(key) && expired(c.entries[key], now, c.ttl) {
        assert(elapsed(later, c.entries[key].inserted_at) >= elapsed(now, c.entries[key].inserted_at));
    }
}

/// No sequence of calls changes a cache's TTL, and the key set stays finite.
pub proof fn law_ttl_survives_calls(c: CacheView, ops: Seq<CacheOp>)
    ensures
        c.apply_all(ops).ttl == c.ttl,
        c.entries.dom().finite() ==> c.apply_all(ops).entries.dom().finite(),
    decreases ops.len(),
{
    if ops.len() > 0 {
        law_ttl_survives_calls(c, ops.drop_last());
        let before = c.apply_all(ops.drop_last());
        if before.entries.dom().finite() {
            let stored = match ops.last() {
                CacheOp::Store { key, .. } => key,
                _ => Seq::empty(),
            };
            vstd::set_lib::lemma_len_subset(c.apply_all(ops).entries.dom(), before.entries.dom().insert(stored));
        }
    }
}

/// What a cache counts: after any sequence of calls, every key present was
/// stored since the last clear (or was present before, when there was no
/// clear), so `len` is at most the number of such keys; and a key stored at
/// step `i` and not touched since is still counted, expired or not, until a
/// lookup of it, a sweep or a clear drops it.
pub proof fn law_count(c: CacheView, ops: Seq<CacheOp>)
    requires
        c.entries.dom().finite(),
    ensures
        keys_since_clear(c, ops).finite(),
        c.apply_all(ops).entries.dom().subset_of(keys_since_clear(c, ops)),
        c.apply_all(ops).len() <= keys_since_clear(c, ops).len(),
        forall|i: int|
            0 <= i < ops.len() && #[trigger] ops[i] is Store && untouched_after(ops, i, ops[i]->Store_key)
                ==> c.apply_all(ops).entries.contains_key(ops[i]->Store_key),
    decreases ops.len(),
{
    law_ttl_survives_calls(c, ops);
    if ops.len() > 0 {
        let init = ops.drop_last();
        law_count(c, init);
        let before = c.apply_all(init);
        let after = c.apply_all(ops);
        assert(after.entries.dom().subset_of(keys_since_clear(c, ops)));
        vstd::set_lib::lemma_len_subset(after.entries.dom(), keys_since_clear(c, ops));
        assert forall|i: int|
            0 <= i < ops.len() && #[trigger] ops[i] is Store && untouched_after(ops, i, ops[i]->Store_key)
            implies after.entries.contains_key(ops[i]->Store_key) by {
            let key = ops[i]->Store_key;
            if i < ops.len() - 1 {
                assert(init[i] == ops[i]);
                assert(untouched_after(init, i, key)) by {
                    assert forall|j: int| i < j < init.len() implies match #[trigger] init[j] {
                        CacheOp::Store { .. } => true,
                        CacheOp::Lookup { key: k, .. } => k != key,
                        _ => false,
                    } by {
                        assert(init[j] == ops[j]);
                    }
                }
                assert(before.entries.contains_key(key));
                let last = ops.last();
                assert(untouched_after(ops, i, key));
                assert(match ops[ops.len() - 1] {
                    CacheOp::Store { .. } => true,
                    CacheOp::Lookup { key: k, .. } => k != key,
                    _ => false,
                });
            }
        }
    } else {
        vstd::set_lib::lemma_len_subset(c.entries.dom(), c.entries.dom());
    }
}

} // verus!
