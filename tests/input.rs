use geo_db::input::http::{
    may_retry_open, parse_content_range, range_header_value, HttpDataInput, HttpError, IoErrorKind,
    IoFault, RetryPolicy, TransportFault,
};
use geo_db::input::{DataInput, InputLineIter, LineIterError};

/// A source that hands out its bytes in chunks of a fixed size.
struct Chunked {
    data: Vec<u8>,
    pos: usize,
    step: usize,
}

impl DataInput for Chunked {
    type Error = String;

    fn read(&mut self, max: usize) -> Result<Vec<u8>, String> {
        let n = self.step.min(max).min(self.data.len() - self.pos);
        let out = self.data[self.pos..self.pos + n].to_vec();
        self.pos += n;
        Ok(out)
    }

    fn bytes_read(&self) -> u64 {
        self.pos as u64
    }

    fn content_length(&self) -> Option<u64> {
        Some(self.data.len() as u64)
    }
}

fn lines_of(data: &[u8], step: usize) -> (Vec<String>, u64) {
    let mut it = InputLineIter::new(Chunked { data: data.to_vec(), pos: 0, step });
    let mut out = Vec::new();
    loop {
        match it.next() {
            Ok(line) => out.push(line),
            Err(LineIterError::Eof) => break,
            Err(_) => panic!("unexpected error"),
        }
    }
    (out, it.bytes_read)
}

#[test]
fn frames_lines_across_chunks() {
    let data = b"[\n{\"id\":\"Q1\"},\n{\"id\":\"Q2\"}\n]";
    for step in [1, 2, 3, 7, 100] {
        let (lines, n) = lines_of(data, step);
        assert_eq!(lines, vec!["[", "{\"id\":\"Q1\"},", "{\"id\":\"Q2\"}", "]"]);
        assert_eq!(n, data.len() as u64);
    }
}

#[test]
fn trailing_newline_gives_no_empty_line() {
    let (lines, _) = lines_of(b"a\nb\n", 3);
    assert_eq!(lines, vec!["a", "b"]);
    let (lines, _) = lines_of(b"", 3);
    assert!(lines.is_empty());
    let (lines, _) = lines_of(b"\n\n", 1);
    assert_eq!(lines, vec!["", ""]);
}

#[test]
fn blank_line_between_lines() {
    let mut it = InputLineIter::new(Chunked { data: b"a\n\nb".to_vec(), pos: 0, step: 2 });
    assert_eq!(it.next().ok(), Some("a".to_string()));
    assert_eq!(it.next().ok(), Some(String::new()));
    assert_eq!(it.next().ok(), Some("b".to_string()));
    assert!(matches!(it.next(), Err(LineIterError::Eof)));
    assert_eq!(it.decoded_len(), 4);
    assert_eq!(it.input.pos, 4);
}

/// A source that fails on its second read.
struct Failing {
    reads: usize,
}

impl DataInput for Failing {
    type Error = String;

    fn read(&mut self, _max: usize) -> Result<Vec<u8>, String> {
        self.reads += 1;
        if self.reads == 1 {
            Ok(b"partial".to_vec())
        } else {
            Err("broken".to_string())
        }
    }

    fn bytes_read(&self) -> u64 {
        0
    }

    fn content_length(&self) -> Option<u64> {
        None
    }
}

#[test]
fn failed_read_is_an_input_error() {
    let mut it = InputLineIter::new(Failing { reads: 0 });
    match it.next() {
        Err(LineIterError::Input(e)) => assert_eq!(e, "broken"),
        _ => panic!("expected the source's error"),
    }
}

#[test]
fn eof_repeats() {
    let mut it = InputLineIter::new(Chunked { data: b"x".to_vec(), pos: 0, step: 4 });
    assert_eq!(it.next().ok(), Some("x".to_string()));
    assert!(matches!(it.next(), Err(LineIterError::Eof)));
    assert!(matches!(it.next(), Err(LineIterError::Eof)));
}

#[test]
fn invalid_utf8_is_an_error_in_its_turn() {
    let mut it = InputLineIter::new(Chunked { data: b"ok\n\xff\xfe\nlast".to_vec(), pos: 0, step: 64 });
    assert_eq!(it.next().ok(), Some("ok".to_string()));
    assert!(matches!(it.next(), Err(LineIterError::Utf8(_))));
    assert_eq!(it.next().ok(), Some("last".to_string()));
    assert!(matches!(it.next(), Err(LineIterError::Eof)));
}

#[test]
fn multibyte_text_survives_chunking() {
    let text = "Zürich\nŁódź\n東京";
    let (lines, _) = lines_of(text.as_bytes(), 1);
    assert_eq!(lines, vec!["Zürich", "Łódź", "東京"]);
}

#[test]
fn first_response_fixes_etag_and_length() {
    let mut h = HttpDataInput::new("https://example.org/dump.json.bz2".to_string());
    assert_eq!(h.src_url(), "https://example.org/dump.json.bz2");
    assert!(!h.is_open());
    assert_eq!(h.range_header(0), None);
    assert!(matches!(h.accept_response(200, String::new(), "\"abc\"", None, Some(1000), 0), Ok(0)));
    assert!(h.is_open());
    assert_eq!(h.content_length(), Some(1000));
    assert_eq!(h.range_header(150), Some("bytes=150-".to_string()));
}

#[test]
fn failed_status_is_refused() {
    let mut h = HttpDataInput::new("u".to_string());
    match h.accept_response(503, "busy".to_string(), "", None, None, 0) {
        Err(HttpError::Status(code, body)) => {
            assert_eq!(code, 503);
            assert_eq!(body, "busy");
        },
        _ => panic!("expected a status error"),
    }
    assert!(!h.is_open());
}

#[test]
fn reconnect_with_other_etag_fails() {
    let mut h = HttpDataInput::new("u".to_string());
    assert!(h.accept_response(200, String::new(), "\"v1\"", None, Some(10), 0).is_ok());
    assert!(matches!(
        h.accept_response(206, String::new(), "\"v2\"", Some("bytes 5-9/10"), Some(5), 5),
        Err(HttpError::EtagMismatch)
    ));
}

#[test]
fn resumed_stream_is_continuous() {
    let stream: Vec<u8> = (0..=255u8).cycle().take(1000).collect();
    let mut h = HttpDataInput::new("u".to_string());
    assert!(h.accept_response(200, String::new(), "e", None, Some(1000), 0).is_ok());
    for split in [0u64, 1, 150, 999, 1000] {
        for back in [0u64, 1, 100] {
            let start = split.saturating_sub(back);
            let header = format!("bytes {}-999/1000", start);
            let skip = match h.accept_response(206, String::new(), "e", Some(&header), None, split) {
                Ok(k) => k,
                Err(_) => panic!("resume refused"),
            };
            let response = &stream[start as usize..];
            let mut joined = stream[..split as usize].to_vec();
            joined.extend_from_slice(&response[skip as usize..]);
            assert_eq!(joined, stream);
        }
    }
}

#[test]
fn content_range_checks() {
    let mut h = HttpDataInput::new("u".to_string());
    assert!(h.accept_response(200, String::new(), "e", None, None, 0).is_ok());
    assert!(matches!(
        h.accept_response(206, String::new(), "e", Some("bytes 200-999/1000"), None, 100),
        Err(HttpError::ContentRangeTooSmall)
    ));
    assert!(matches!(
        h.accept_response(206, String::new(), "e", Some("items 0-9/10"), None, 100),
        Err(HttpError::UnexpectedContentRange)
    ));
    assert!(matches!(h.accept_response(200, String::new(), "e", None, None, 100), Ok(100)));
}

#[test]
fn content_range_start() {
    assert_eq!(parse_content_range("bytes 100-999/1000"), Some(100));
    assert_eq!(parse_content_range("bytes 0-"), Some(0));
    assert_eq!(parse_content_range("bytes 7"), Some(7));
    assert_eq!(parse_content_range("bytes"), None);
    assert_eq!(parse_content_range("bytes x-9/10"), None);
    assert_eq!(parse_content_range("octets 1-2/3"), None);
}

#[test]
fn range_header_numerals() {
    assert_eq!(range_header_value(0), "bytes=0-");
    assert_eq!(range_header_value(1234567890), "bytes=1234567890-");
    assert_eq!(range_header_value(u64::MAX), "bytes=18446744073709551615-");
}

fn io(kind: IoErrorKind, transport: Option<TransportFault>) -> HttpError {
    HttpError::Io(IoFault { kind, transport, message: String::new() })
}

#[test]
fn retry_rules() {
    let quiet = TransportFault { is_timeout: false, is_connect: false, is_decode: false, is_body: false, is_request: false };
    let timeout = TransportFault { is_timeout: true, ..quiet };
    assert_eq!(HttpError::NoConnection.retry_policy(), RetryPolicy::Reopen);
    assert_eq!(io(IoErrorKind::Interrupted, None).retry_policy(), RetryPolicy::Retry);
    assert_eq!(io(IoErrorKind::ConnectionReset, None).retry_policy(), RetryPolicy::Reopen);
    assert_eq!(io(IoErrorKind::UnexpectedEof, None).retry_policy(), RetryPolicy::Reopen);
    assert_eq!(io(IoErrorKind::Other, Some(timeout)).retry_policy(), RetryPolicy::Reopen);
    assert_eq!(io(IoErrorKind::Other, Some(quiet)).retry_policy(), RetryPolicy::Fail);
    assert_eq!(io(IoErrorKind::Other, None).retry_policy(), RetryPolicy::Fail);
    assert_eq!(io(IoErrorKind::Unlisted, None).retry_policy(), RetryPolicy::Fail);
    assert_eq!(HttpError::EtagMismatch.retry_policy(), RetryPolicy::Fail);
    assert_eq!(HttpError::Req("x".to_string()).retry_policy(), RetryPolicy::Fail);
}

#[test]
fn open_tries_are_bounded() {
    let reset = io(IoErrorKind::ConnectionReset, None);
    assert!(may_retry_open(1, &reset));
    assert!(may_retry_open(31, &reset));
    assert!(!may_retry_open(32, &reset));
    assert!(may_retry_open(1, &HttpError::Status(503, String::new())));
}

#[test]
fn etag_mismatch_is_never_retried() {
    assert!(!may_retry_open(1, &HttpError::EtagMismatch));
    assert!(!may_retry_open(0, &HttpError::EtagMismatch));
}
