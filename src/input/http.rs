//! The rules of the resumable HTTP source: what it asks the server for, which
//! responses it accepts on a reconnect, how many bytes of a resumed response
//! it passes over, and which faults it retries.

use vstd::prelude::*;
use vstd::string::StringExecFns;
use crate::text::{
    index_of, before, after, parse_u64_spec, chars_of, find_char, parse_u64_range, chars_eq, str_eq,
    decimal_text, push_decimal,
};

verus! {

pub const USER_AGENT: &'static str = "AKSO geo-db (+https://akso.org)";

/// How often the source tries to open a connection before it gives up.
pub const MAX_OPEN_TRIES: usize = 32;

/// The pause between two tries, in seconds.
pub const OPEN_RETRY_INTERVAL_SECS: u64 = 8;

/// The kinds of I/O fault that the retry rules tell apart.
#[derive(Debug, Clone, Copy, PartialEq, Eq, Structural)]
pub enum IoErrorKind {
    Interrupted,
    BrokenPipe,
    ConnectionAborted,
    ConnectionRefused,
    ConnectionReset,
    TimedOut,
    UnexpectedEof,
    /// Any other kind, a transport fault among them.
    Other,
    /// A kind that the rules do not name.
    Unlisted,
}

/// What a transport-level fault reports of itself.
#[derive(Debug, Clone, Copy, PartialEq, Eq, Structural)]
pub struct TransportFault {
    pub is_timeout: bool,
    pub is_connect: bool,
    pub is_decode: bool,
    pub is_body: bool,
    pub is_request: bool,
}

/// An I/O fault while reading the response body.
pub struct IoFault {
    pub kind: IoErrorKind,
    /// The transport fault it wraps, if any.
    pub transport: Option<TransportFault>,
    pub message: String,
}

pub enum HttpError {
    /// Nothing has been opened yet.
    NoConnection,
    /// A reconnect found another entity tag: the dump changed.
    EtagMismatch,
    /// The server answered with this status code and body.
    Status(u16, String),
    /// The `Content-Range` header of a resumed response is not `bytes S-...`.
    UnexpectedContentRange,
    /// A resumed response starts after the bytes already read.
    ContentRangeTooSmall,
    /// The request failed.
    Req(String),
    /// Reading the response failed.
    Io(IoFault),
}

#[derive(Debug, Clone, Copy, PartialEq, Eq, Structural)]
pub enum RetryPolicy {
    Fail,
    Reopen,
    Retry,
}

/// What the source does after the fault `e`: retry the read on an
/// interruption; reopen the connection when none is open, when the
/// connection broke, timed out or ended early, or on a timeout, connect,
/// decode, body or request fault of the transport; fail otherwise.
pub open spec fn retry_policy_of(e: HttpError) -> RetryPolicy {
    match e {
        HttpError::NoConnection => RetryPolicy::Reopen,
        HttpError::Io(f) => match f.kind {
            IoErrorKind::Interrupted => RetryPolicy::Retry,
            IoErrorKind::BrokenPipe | IoErrorKind::ConnectionAborted
            | IoErrorKind::ConnectionRefused | IoErrorKind::ConnectionReset
            | IoErrorKind::TimedOut | IoErrorKind::UnexpectedEof => RetryPolicy::Reopen,
            IoErrorKind::Other => match f.transport {
                Some(t) => if t.is_timeout || t.is_connect || t.is_decode || t.is_body
                    || t.is_request {
                    RetryPolicy::Reopen
                } else {
                    RetryPolicy::Fail
                },
                None => RetryPolicy::Fail,
            },
            IoErrorKind::Unlisted => RetryPolicy::Fail,
        },
        _ => RetryPolicy::Fail,
    }
}

impl HttpError {
    pub fn retry_policy(&self) -> (r: RetryPolicy)
        ensures
            r == retry_policy_of(*self),
    {
        match self {
            HttpError::NoConnection => RetryPolicy::Reopen,
            HttpError::Io(f) => match f.kind {
                IoErrorKind::Interrupted => RetryPolicy::Retry,
                IoErrorKind::BrokenPipe | IoErrorKind::ConnectionAborted
                | IoErrorKind::ConnectionRefused | IoErrorKind::ConnectionReset
                | IoErrorKind::TimedOut | IoErrorKind::UnexpectedEof => RetryPolicy::Reopen,
                IoErrorKind::Other => match f.transport {
                    Some(t) => if t.is_timeout || t.is_connect || t.is_decode || t.is_body
                        || t.is_request {
                        RetryPolicy::Reopen
                    } else {
                        RetryPolicy::Fail
                    },
                    None => RetryPolicy::Fail,
                },
                IoErrorKind::Unlisted => RetryPolicy::Fail,
            },
            _ => RetryPolicy::Fail,
        }
    }
}

/// Whether an open that failed with `err` after `try_count` tries is tried
/// again: up to `MAX_OPEN_TRIES` tries in all, and never after an entity-tag
/// mismatch, which means the dump has been replaced.
pub fn may_retry_open(try_count: usize, err: &HttpError) -> (r: bool)
    ensures
        r == (try_count < MAX_OPEN_TRIES && !(*err is EtagMismatch)),
{
    match err {
        HttpError::EtagMismatch => false,
        _ => try_count < MAX_OPEN_TRIES,
    }
}

/// The value of a `Range` header that asks for the stream from byte `b` on.
pub open spec fn range_value(b: nat) -> Seq<char> {
    "bytes="@ + decimal_text(b) + "-"@
}

/// The value of the `Range` header that resumes the stream at byte `b`.
pub fn range_header_value(b: u64) -> (r: String)
    ensures
        r@ == range_value(b as nat),
{
    let mut r = String::from_str("bytes=");
    push_decimal(&mut r, b);
    r.append("-");
    r
}

/// The first byte of a resumed response, as its `Content-Range` header
/// `h` gives it: `bytes S-E/T` gives `S`.
pub open spec fn content_range_start(h: Seq<char>) -> Option<u64> {
    if before(h, ' ') != "bytes"@ || index_of(h, ' ') == h.len() {
        None
    } else {
        parse_u64_spec(before(before(before(after(h, ' '), ' '), '/'), '-'))
    }
}

/// Reads the first byte of a resumed response from its `Content-Range`
/// header.
pub fn parse_content_range(h: &str) -> (r: Option<u64>)
    ensures
        r == content_range_start(h@),
{
    let v = chars_of(h);
    let n = v.len();
    let sp = find_char(&v, 0, n, ' ');
    assert(v@.subrange(0, n as int) =~= v@);
    let unit = chars_of("bytes");
    if !chars_eq(&v, 0, sp, &unit) || sp == n {
        return None;
    }
    let second_end = find_char(&v, sp + 1, n, ' ');
    let slash = find_char(&v, sp + 1, second_end, '/');
    let dash = find_char(&v, sp + 1, slash, '-');
    let ghost rest = after(h@, ' ');
    assert(rest =~= v@.subrange(sp + 1, n as int));
    assert(before(rest, ' ') =~= v@.subrange(sp + 1, second_end as int));
    assert(before(before(rest, ' '), '/') =~= v@.subrange(sp + 1, slash as int));
    assert(before(before(before(rest, ' '), '/'), '-') =~= v@.subrange(sp + 1, dash as int));
    parse_u64_range(&v, sp + 1, dash)
}


/// Whether `status` is a success (2xx).
pub open spec fn is_success(status: u16) -> bool {
    200 <= status && status < 300
}

/// What the source keeps from the first response: its entity tag and
/// length.
struct HttpDataInputState {
    etag: String,
    len: Option<u64>,
}

/// The reconnect state of the resumable HTTP source. The first accepted
/// response fixes the entity tag; every later response must resume the same
/// entity.
pub struct HttpDataInput {
    src_url: String,
    state: Option<HttpDataInputState>,
}

impl HttpDataInput {
    pub closed spec fn url(&self) -> Seq<char> {
        self.src_url@
    }

    /// The entity tag of the first accepted response.
    pub closed spec fn etag(&self) -> Option<Seq<char>> {
        match self.state {
            Some(st) => Some(st.etag@),
            None => None,
        }
    }

    /// The length that the first accepted response announced.
    pub closed spec fn length(&self) -> Option<u64> {
        match self.state {
            Some(st) => st.len,
            None => None,
        }
    }

    pub fn new(src_url: String) -> (r: Self)
        ensures
            r.url() == src_url@,
            r.etag() is None,
            r.length() is None,
    {
        HttpDataInput { src_url, state: None }
    }

    pub fn src_url(&self) -> (r: &str)
        ensures
            r@ == self.url(),
    {
        self.src_url.as_str()
    }

    /// Whether a first response has been accepted.
    pub fn is_open(&self) -> (r: bool)
        ensures
            r == self.etag() is Some,
    {
        self.state.is_some()
    }

    pub fn content_length(&self) -> (r: Option<u64>)
        ensures
            r == self.length(),
    {
        match &self.state {
            Some(st) => st.len,
            None => None,
        }
    }

    /// The `Range` header for the next request, after `bytes_in` compressed
    /// bytes were read: none for the first request.
    pub fn range_header(&self, bytes_in: u64) -> (r: Option<String>)
        ensures
            match r {
                Some(h) => self.etag() is Some && h@ == range_value(bytes_in as nat),
                None => self.etag() is None,
            },
    {
        if self.state.is_some() {
            Some(range_header_value(bytes_in))
        } else {
            None
        }
    }

    /// Checks a response after `bytes_in` compressed bytes were read, and
    /// returns how many bytes of its body to pass over. A failed status is
    /// refused. The first response is accepted and fixes the entity tag and
    /// length. A later one must carry the same entity tag and, where it has a
    /// `Content-Range` header, start at or before `bytes_in`; it is passed
    /// over up to there.
    pub fn accept_response(
        &mut self,
        status: u16,
        body: String,
        etag: &str,
        content_range: Option<&str>,
        content_length: Option<u64>,
        bytes_in: u64,
    ) -> (r: Result<u64, HttpError>)
        ensures
            final(self).url() == old(self).url(),
            !is_success(status) ==> r == Err::<u64, HttpError>(HttpError::Status(status, body))
                && *final(self) == *old(self),
            is_success(status) && old(self).etag() is None ==> r == Ok::<u64, HttpError>(0)
                && final(self).etag() == Some(etag@) && final(self).length() == content_length,
            is_success(status) && old(self).etag() is Some ==> *final(self) == *old(self) && match (
            r) {
                Ok(skip) => old(self).etag() == Some(etag@) && match content_range {
                    None => skip == bytes_in,
                    Some(h) => content_range_start(h@) matches Some(start) && start <= bytes_in
                        && skip == bytes_in - start,
                },
                Err(HttpError::EtagMismatch) => old(self).etag() != Some(etag@),
                Err(HttpError::UnexpectedContentRange) => {
                    &&& old(self).etag() == Some(etag@)
                    &&& content_range matches Some(h)
                    &&& content_range_start(h@) is None
                },
                Err(HttpError::ContentRangeTooSmall) => {
                    &&& old(self).etag() == Some(etag@)
                    &&& content_range matches Some(h)
                    &&& content_range_start(h@) matches Some(start)
                    &&& start > bytes_in
                },
                Err(_) => false,
            },
    {
        if !(200 <= status && status < 300) {
            return Err(HttpError::Status(status, body));
        }
        match &self.state {
            None => {
                self.state = Some(HttpDataInputState { etag: String::from_str(etag), len: content_length });
                Ok(0)
            },
            Some(st) => {
                if !str_eq(st.etag.as_str(), etag) {
                    return Err(HttpError::EtagMismatch);
                }
                let start = match content_range {
                    None => 0,
                    Some(h) => match parse_content_range(h) {
                        Some(x) => x,
                        None => return Err(HttpError::UnexpectedContentRange),
                    },
                };
                if start > bytes_in {
                    return Err(HttpError::ContentRangeTooSmall);
                }
                Ok(bytes_in - start)
            },
        }
    }
}

/// Resuming the stream at byte `start`, at or before the `b` bytes already
/// read, and passing over the first `b - start` bytes of the response, the
/// bytes read before and after the reconnect make up the stream exactly.
pub proof fn resume_continuity(stream: Seq<u8>, b: int, start: int)
    requires
        0 <= start <= b <= stream.len(),
    ensures
        stream.subrange(0, b) + stream.subrange(start, stream.len() as int).subrange(
            b - start,
            stream.len() - start,
        ) == stream,
{
    assert(stream.subrange(0, b) + stream.subrange(start, stream.len() as int).subrange(
        b - start,
        stream.len() - start,
    ) =~= stream);
}

} // verus!
