//! Messages between client and daemon, and their line framing.
//!
//! Each message travels as one JSON document on one line. The JSON encoding of
//! a message is done at the edge; this module frames and unframes the bytes.
use vstd::prelude::*;

verus! {

/// A request from a client to the daemon.
#[derive(Debug, Clone)]
pub enum Request {
    Read { url: String },
    Inject { path: String },
    Clear,
    Status,
    Stop,
}

/// The daemon's answer to one request.
#[derive(Debug, Clone)]
pub enum Response {
    Value { ok: bool, value: String },
    Status { ok: bool, entries: usize, ttl_secs: u64, uptime_secs: u64 },
    Error { ok: bool, error: String },
    Success { ok: bool },
}

impl Response {
    /// A bare success.
    pub fn ok() -> (r: Response)
        ensures
            r == (Response::Success { ok: true }),
    {
        Response::Success { ok: true }
    }

    /// A successful answer carrying `value`.
    pub fn value(value: String) -> (r: Response)
        ensures
            r == (Response::Value { ok: true, value }),
    {
        Response::Value { ok: true, value }
    }

    /// A failure carrying the message `msg`.
    pub fn error(msg: String) -> (r: Response)
        ensures
            r == (Response::Error { ok: false, error: msg }),
    {
        Response::Error { ok: false, error: msg }
    }

    /// The daemon's status: cached entries, TTL and uptime in seconds.
    pub fn status(entries: usize, ttl_secs: u64, uptime_secs: u64) -> (r: Response)
        ensures
            r == (Response::Status { ok: true, entries, ttl_secs, uptime_secs }),
    {
        Response::Status { ok: true, entries, ttl_secs, uptime_secs }
    }
}

/// Why a line could not be taken as a message.
#[derive(Debug, Clone, Copy, PartialEq, Eq, Structural)]
pub enum FrameError {
    /// The line held nothing but its terminator.
    EmptyMessage,
}

/// The byte `\n`.
pub const NEWLINE: u8 = 10;

/// The byte `\r`.
pub const CARRIAGE_RETURN: u8 = 13;

/// A byte that may end a line: `\n` or `\r`.
pub open spec fn is_line_end(b: u8) -> bool {
    b == NEWLINE || b == CARRIAGE_RETURN
}

/// `line` without the run of `\n` and `\r` bytes at its end.
pub open spec fn trim_line_end(line: Seq<u8>) -> Seq<u8>
    decreases line.len(),
{
    if line.len() > 0 && is_line_end(line.last()) {
        trim_line_end(line.drop_last())
    } else {
        line
    }
}

/// The bytes that carry `message` on the wire: the message and a newline.
pub open spec fn framed(message: Seq<u8>) -> Seq<u8> {
    message.push(NEWLINE)
}

/// What a line read from the peer means: `None` for the end of the stream
/// (nothing was read), the message without its line terminator otherwise,
/// and an error for a line that is empty once the terminator is gone.
pub open spec fn unframed(line: Seq<u8>) -> Result<Option<Seq<u8>>, FrameError> {
    if line.len() == 0 {
        Ok(None)
    } else if trim_line_end(line).len() == 0 {
        Err(FrameError::EmptyMessage)
    } else {
        Ok(Some(trim_line_end(line)))
    }
}

/// The view of an unframing result.
pub open spec fn unframe_view(r: Result<Option<Vec<u8>>, FrameError>) -> Result<Option<Seq<u8>>, FrameError> {
    match r {
        Ok(Some(v)) => Ok(Some(v@)),
        Ok(None) => Ok(None),
        Err(e) => Err(e),
    }
}

proof fn lemma_trim_line_end_prefix(line: Seq<u8>)
    ensures
        trim_line_end(line).len() <= line.len(),
        trim_line_end(line) == line.take(trim_line_end(line).len() as int),
    decreases line.len(),
{
    if line.len() > 0 && is_line_end(line.last()) {
        lemma_trim_line_end_prefix(line.drop_last());
        assert(line.drop_last().take(trim_line_end(line).len() as int) =~= line.take(
            trim_line_end(line).len() as int,
        ));
    } else {
        assert(line.take(line.len() as int) =~= line);
    }
}

/// Appends the line terminator to an encoded message.
pub fn frame(message: Vec<u8>) -> (line: Vec<u8>)
    ensures
        line@ == framed(message@),
{
    let mut line = message;
    line.push(NEWLINE);
    line
}

/// Takes one line read from the peer (with its terminator, as read) apart:
/// `Ok(None)` at the end of the stream, the message bytes without trailing
/// `\n`/`\r`, or `EmptyMessage` for a line that holds nothing else.
pub fn unframe(line: &[u8]) -> (r: Result<Option<Vec<u8>>, FrameError>)
    ensures
        unframe_view(r) == unframed(line@),
{
    if line.len() == 0 {
        return Ok(None);
    }
    let mut end: usize = line.len();
    assert(line@.take(end as int) =~= line@);
    while end > 0 && (line[end - 1] == NEWLINE || line[end - 1] == CARRIAGE_RETURN)
        invariant
            end <= line@.len(),
            trim_line_end(line@.take(end as int)) == trim_line_end(line@),
        decreases end,
    {
        proof {
            assert(line@.take(end as int).drop_last() =~= line@.take(end - 1));
        }
        end -= 1;
    }
    proof {
        if end > 0 {
            assert(line@.take(end as int).last() == line@[end - 1]);
        }
        assert(trim_line_end(line@.take(end as int)) == line@.take(end as int));
    }
    if end == 0 {
        return Err(FrameError::EmptyMessage);
    }
    let mut message: Vec<u8> = Vec::new();
    let mut i: usize = 0;
    while i < end
        invariant
            i <= end <= line@.len(),
            message@ == line@.take(i as int),
        decreases end - i,
    {
        message.push(line[i]);
        proof {
            assert(line@.take(i + 1) =~= line@.take(i as int).push(line@[i as int]));
        }
        i += 1;
    }
    Ok(Some(message))
}

/// A message that does not itself end in `\n` or `\r` (an encoded JSON
/// document never does) survives framing: the peer unframes exactly it.
pub proof fn law_unframe_inverts_frame(message: Seq<u8>)
    requires
        message.len() > 0,
        !is_line_end(message.last()),
    ensures
        unframed(framed(message)) == Ok::<Option<Seq<u8>>, FrameError>(Some(message)),
{
    assert(framed(message).drop_last() =~= message);
    assert(framed(message).last() == NEWLINE);
    assert(trim_line_end(message) == message);
    assert(trim_line_end(framed(message)) == trim_line_end(message));
}

/// Unframing only ever strips a line's terminator: the message is a prefix of
/// the line, and what was cut off is all `\n` and `\r`.
pub proof fn law_unframe_strips_only_terminator(line: Seq<u8>)
    ensures
        unframed(line) matches Ok(Some(m)) ==> (
            m == line.take(m.len() as int)
            && m.len() > 0 && !is_line_end(m.last())
            && forall|i: int| m.len() <= i < line.len() ==> is_line_end(#[trigger] line[i])
        ),
    decreases line.len(),
{
    lemma_trim_line_end_prefix(line);
    if line.len() > 0 && is_line_end(line.last()) {
        law_unframe_strips_only_terminator(line.drop_last());
        if line.len() > 1 {
            lemma_trim_line_end_prefix(line.drop_last());
        }
        match unframed(line) {
            Ok(Some(m)) => {
                assert(unframed(line.drop_last()) == Ok::<Option<Seq<u8>>, FrameError>(Some(m)));
                assert forall|i: int| m.len() <= i < line.len() implies is_line_end(#[trigger] line[i]) by {
                    if i < line.len() - 1 {
                        assert(line[i] == line.drop_last()[i]);
                    }
                }
            },
            _ => {},
        }
    }
}

/// For any message at all: the peer unframes the message without its
/// trailing `\n`/`\r` run, or sees an empty message when nothing else is left.
pub proof fn law_unframe_of_any_framed_message(message: Seq<u8>)
    ensures
        unframed(framed(message)) == (if trim_line_end(message).len() == 0 {
            Err::<Option<Seq<u8>>, FrameError>(FrameError::EmptyMessage)
        } else {
            Ok(Some(trim_line_end(message)))
        }),
{
    assert(framed(message).drop_last() =~= message);
    assert(framed(message).last() == NEWLINE);
}

} // verus!
