//! The daemon's decisions on each request.
//!
//! Serving a request may need outside work: resolving a template's path and
//! modification time, decrypting a cached value, running `op`, encrypting a
//! fresh value. The edge does that work when an `Action` asks for it and comes
//! back with the outcome; every decision in between, and every change to the
//! cache, is made here.
use vstd::prelude::*;
use vstd::string::StringExecFns;
use vstd::utf8::{decode_utf8, valid_utf8};

use crate::cache::{file_key, url_key, Cache, CacheView};
use crate::protocol::{Request, Response};
use crate::text::{has_prefix, starts_with_chars, utf8_string};
use crate::time::{elapsed, whole_secs, Instant, SystemTime};

verus! {

/// The characters `op://`, which every secret reference starts with.
pub open spec fn op_url_prefix() -> Seq<char> {
    seq!['o', 'p', ':', '/', '/']
}

/// Whether `url` is a secret reference (`op://...`).
pub fn is_op_url(url: &str) -> (r: bool)
    ensures
        r == has_prefix(url@, op_url_prefix()),
{
    let prefix = ['o', 'p', ':', '/', '/'];
    let r = starts_with_chars(url, &prefix);
    assert(prefix@ =~= op_url_prefix());
    r
}

/// Which kind of value is being served; it decides the wording of errors.
#[derive(Debug, Clone, Copy, PartialEq, Eq, Structural)]
pub enum Origin {
    /// The value of a secret reference (`op read`).
    Secret,
    /// A rendered template (`op inject`).
    Template,
}

/// What is fetched afresh and then cached.
#[derive(Debug, Clone)]
pub enum Target {
    /// `op read` of this secret reference.
    Secret { url: String },
    /// `op inject` of this template, whose file has modification time `mtime`.
    Template { path: String, mtime: SystemTime },
}

/// What the edge is to do for a request.
#[derive(Debug, Clone)]
pub enum Action {
    /// Send this response.
    Reply(Response),
    /// Send this response, then stop the daemon and close the connection.
    ReplyAndStop(Response),
    /// Resolve this template path to its canonical form and modification
    /// time, then call `lookup_template`; on failure reply with the error.
    Resolve { path: String },
    /// Decrypt this cached ciphertext, then call `value_reply` with the outcome.
    Decrypt { origin: Origin, ciphertext: Vec<u8> },
    /// Fetch the value afresh and encrypt it, then call `store_fetched` with
    /// the plaintext and the ciphertext, or `value_reply` with the error.
    Fetch(Target),
}

/// The error text for a value that is not valid UTF-8.
pub open spec fn bad_utf8_message(origin: Origin) -> Seq<char> {
    match origin {
        Origin::Secret => "value is not valid UTF-8"@,
        Origin::Template => "rendered output is not valid UTF-8"@,
    }
}

/// The error text for a reference that is not an `op://` URL.
pub open spec fn not_op_url_message(url: Seq<char>) -> Seq<char> {
    "not an op:// url: "@ + url
}

/// `r` is an error response carrying `message`.
pub open spec fn is_error_reply(r: Response, message: Seq<char>) -> bool {
    r matches Response::Error { ok, error } && !ok && error@ == message
}

/// The response for a value obtained (or not) for a request of kind `origin`:
/// the value as text when its bytes are valid UTF-8, an error saying they are
/// not otherwise, and the given message when obtaining it failed.
pub fn value_reply(origin: Origin, result: Result<Vec<u8>, String>) -> (r: Response)
    ensures
        match result {
            Ok(bytes) => if valid_utf8(bytes@) {
                r matches Response::Value { ok, value } && ok && value@ == decode_utf8(bytes@)
            } else {
                is_error_reply(r, bad_utf8_message(origin))
            },
            Err(msg) => r == (Response::Error { ok: false, error: msg }),
        },
{
    match result {
        Ok(bytes) => match utf8_string(bytes) {
            Some(s) => Response::value(s),
            None => match origin {
                Origin::Secret => Response::error("value is not valid UTF-8".to_owned()),
                Origin::Template => Response::error("rendered output is not valid UTF-8".to_owned()),
            },
        },
        Err(msg) => Response::error(msg),
    }
}

/// The cache key under which a target's value is stored.
pub open spec fn target_key(t: Target) -> Seq<char> {
    match t {
        Target::Secret { url } => url_key(url@),
        Target::Template { path, mtime } => file_key(path@),
    }
}

/// The modification time a target's value is stored with.
pub open spec fn target_mtime(t: Target) -> Option<int> {
    match t {
        Target::Secret { url } => None,
        Target::Template { path, mtime } => Some(mtime@),
    }
}

/// The kind of value a target yields.
pub open spec fn target_origin(t: Target) -> Origin {
    match t {
        Target::Secret { url } => Origin::Secret,
        Target::Template { path, mtime } => Origin::Template,
    }
}

/// What deciding a request at `now` does to the cache. Deciding never adds
/// an entry: fresh values are stored by `store_fetched`, and a template's
/// entry is looked up by `lookup_template` once its path is resolved.
pub open spec fn after_request(c: CacheView, req: Request, now: nat) -> CacheView {
    match req {
        Request::Read { url } => if has_prefix(url@, op_url_prefix()) {
            c.after_lookup(url_key(url@), now, None)
        } else {
            c
        },
        Request::Clear => c.cleared(),
        _ => c,
    }
}

/// The cache after a connection's requests, each with the instant it was
/// decided at, in order.
pub open spec fn after_requests(c: CacheView, reqs: Seq<(Request, nat)>) -> CacheView
    decreases reqs.len(),
{
    if reqs.len() == 0 {
        c
    } else {
        after_request(after_requests(c, reqs.drop_last()), reqs.last().0, reqs.last().1)
    }
}

/// Decides a request: answers what needs no outside work at once, looks a
/// secret up in the cache, and asks the edge for what it has to do.
/// `started_at` is when the daemon started.
pub fn handle_request(cache: &mut Cache, req: Request, now: Instant, started_at: Instant) -> (action: Action)
    ensures
        final(cache)@ == after_request(old(cache)@, req, now@),
        match req {
            Request::Read { url } => if !has_prefix(url@, op_url_prefix()) {
                &&& action matches Action::Reply(r) && is_error_reply(r, not_op_url_message(url@))
                &&& final(cache)@ == old(cache)@
            } else {
                &&& final(cache)@ == old(cache)@.after_lookup(url_key(url@), now@, None)
                &&& match old(cache)@.lookup(url_key(url@), now@, None) {
                    Some(ct) => action matches Action::Decrypt { origin, ciphertext }
                        && origin == Origin::Secret && ciphertext@ == ct,
                    None => action == Action::Fetch(Target::Secret { url }),
                }
            },
            Request::Inject { path } => {
                &&& action == Action::Resolve { path }
                &&& final(cache)@ == old(cache)@
            },
            Request::Clear => {
                &&& action == Action::Reply(Response::Success { ok: true })
                &&& final(cache)@.entries.is_empty()
                &&& final(cache)@.ttl == old(cache)@.ttl
            },
            Request::Status => {
                &&& action == Action::Reply(Response::Status {
                    ok: true,
                    entries: old(cache)@.len() as usize,
                    ttl_secs: whole_secs(old(cache)@.ttl) as u64,
                    uptime_secs: whole_secs(elapsed(now@, started_at@)) as u64,
                })
                &&& final(cache)@ == old(cache)@
            },
            Request::Stop => {
                &&& action == Action::ReplyAndStop(Response::Success { ok: true })
                &&& final(cache)@ == old(cache)@
            },
        },
{
    match req {
        Request::Read { url } => {
            if !is_op_url(url.as_str()) {
                let msg = "not an op:// url: ".to_owned().concat(url.as_str());
                return Action::Reply(Response::error(msg));
            }
            let cached = match cache.get_url(url.as_str(), now) {
                Some(ct) => Some(vstd::slice::slice_to_vec(ct)),
                None => None,
            };
            match cached {
                Some(ciphertext) => Action::Decrypt { origin: Origin::Secret, ciphertext },
                None => Action::Fetch(Target::Secret { url }),
            }
        },
        Request::Inject { path } => Action::Resolve { path },
        Request::Clear => {
            cache.clear();
            Action::Reply(Response::ok())
        },
        Request::Status => {
            let entries = cache.len();
            let ttl_secs = cache.ttl().as_secs();
            let uptime_secs = now.duration_since(started_at).as_secs();
            Action::Reply(Response::status(entries, ttl_secs, uptime_secs))
        },
        Request::Stop => Action::ReplyAndStop(Response::ok()),
    }
}

/// Decides a template request once its path is resolved: the cached
/// rendering when it is fresh and was made from a file with this
/// modification time, otherwise a fresh rendering.
pub fn lookup_template(cache: &mut Cache, path: String, mtime: SystemTime, now: Instant) -> (action: Action)
    ensures
        final(cache)@ == old(cache)@.after_lookup(file_key(path@), now@, Some(mtime@)),
        match old(cache)@.lookup(file_key(path@), now@, Some(mtime@)) {
            Some(ct) => action matches Action::Decrypt { origin, ciphertext }
                && origin == Origin::Template && ciphertext@ == ct,
            None => action == Action::Fetch(Target::Template { path, mtime }),
        },
{
    let cached = match cache.get_file(path.as_str(), mtime, now) {
        Some(ct) => Some(vstd::slice::slice_to_vec(ct)),
        None => None,
    };
    match cached {
        Some(ciphertext) => Action::Decrypt { origin: Origin::Template, ciphertext },
        None => Action::Fetch(Target::Template { path, mtime }),
    }
}

/// Stores a freshly fetched value's ciphertext under its target, stamped
/// `now`, and answers with the plaintext.
pub fn store_fetched(cache: &mut Cache, target: Target, plaintext: Vec<u8>, ciphertext: Vec<u8>, now: Instant) -> (r: Response)
    ensures
        final(cache)@ == old(cache)@.store(target_key(target), ciphertext@, now@, target_mtime(target)),
        if valid_utf8(plaintext@) {
            r matches Response::Value { ok, value } && ok && value@ == decode_utf8(plaintext@)
        } else {
            is_error_reply(r, bad_utf8_message(target_origin(target)))
        },
{
    let origin = match &target {
        Target::Secret { url } => {
            cache.insert_url(url.as_str(), ciphertext, now);
            Origin::Secret
        },
        Target::Template { path, mtime } => {
            cache.insert_file(path.as_str(), *mtime, ciphertext, now);
            Origin::Template
        },
    };
    value_reply(origin, Ok(plaintext))
}

/// A value served from the cache is the value last stored under its key, as
/// long as it is fresh: a fetch stored at `stored_at` is what a later read of
/// the same reference decrypts, until the TTL has passed.
pub proof fn law_fetched_value_is_served(c: CacheView, target: Target, ct: Seq<u8>, stored_at: nat, now: nat)
    ensures
        c.store(target_key(target), ct, stored_at, target_mtime(target)).lookup(target_key(target), now, target_mtime(target))
            == (if elapsed(now, stored_at) < c.ttl { Some(ct) } else { None }),
{
}

/// Over the decisions of a whole connection (`handle_request` on each
/// request in turn, with nothing fetched in between): no request changes the
/// TTL; status, stop and template requests leave the cache as it was; the
/// decisions only ever drop entries; and once a clear was decided the cache
/// stays empty.
pub proof fn law_requests_over_a_connection(c: CacheView, reqs: Seq<(Request, nat)>)
    ensures
        after_requests(c, reqs).ttl == c.ttl,
        (forall|i: int| 0 <= i < reqs.len() ==> !(#[trigger] reqs[i].0 is Read) && !(reqs[i].0 is Clear))
            ==> after_requests(c, reqs) == c,
        after_requests(c, reqs).entries.dom().subset_of(c.entries.dom()),
        (exists|i: int| 0 <= i < reqs.len() && #[trigger] reqs[i].0 is Clear)
            ==> after_requests(c, reqs).entries.is_empty(),
    decreases reqs.len(),
{
    if reqs.len() > 0 {
        let init = reqs.drop_last();
        law_requests_over_a_connection(c, init);
        if forall|i: int| 0 <= i < reqs.len() ==> !(#[trigger] reqs[i].0 is Read) && !(reqs[i].0 is Clear) {
            assert forall|i: int| 0 <= i < init.len() implies !(#[trigger] init[i].0 is Read) && !(init[i].0 is Clear) by {
                assert(init[i] == reqs[i]);
            }
            assert(!(reqs[reqs.len() - 1].0 is Read) && !(reqs[reqs.len() - 1].0 is Clear));
        }
        if exists|i: int| 0 <= i < reqs.len() && #[trigger] reqs[i].0 is Clear {
            let i = choose|i: int| 0 <= i < reqs.len() && #[trigger] reqs[i].0 is Clear;
            if i < reqs.len() - 1 {
                assert(init[i] == reqs[i]);
                assert(after_requests(c, init).entries.is_empty());
            }
            assert(after_requests(c, reqs).entries =~= Map::empty());
        }
    }
}

} // verus!
