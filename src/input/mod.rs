//! Byte sources of the dump, and the framer that cuts their bytes into
//! lines.

use vstd::prelude::*;
use vstd::utf8::{valid_utf8, decode_utf8};
use std::collections::VecDeque;

pub mod http;

verus! {

#[verifier::external_type_specification]
#[verifier::external_body]
pub struct ExFromUtf8Error(std::string::FromUtf8Error);

/// A source of decompressed dump bytes.
pub trait DataInput {
    type Error;

    // The three views below have bodies only because an implementation
    // written outside verified code cannot state a view; such an
    // implementation is not read by the verifier, and a verified one states
    // its own views. For a source of unknown type nothing of these bodies is
    // assumed.

    /// The bytes the source has handed out so far, in order.
    open spec fn delivered(&self) -> Seq<u8> {
        Seq::empty()
    }

    /// Whether the source has reported the end of its stream.
    open spec fn ended(&self) -> bool {
        false
    }

    /// How many reads of the source have failed.
    open spec fn failures(&self) -> nat {
        0
    }

    /// Reads up to `max` bytes, the next ones of the stream. An empty result
    /// marks the end of the stream. A failed read hands out nothing.
    fn read(&mut self, max: usize) -> (r: Result<Vec<u8>, Self::Error>)
        requires
            max > 0,
        ensures
            match r {
                Ok(v) => {
                    &&& v@.len() <= max
                    &&& final(self).delivered() == old(self).delivered() + v@
                    &&& v@.len() == 0 ==> final(self).ended()
                    &&& final(self).failures() == old(self).failures()
                },
                Err(_) => {
                    &&& final(self).delivered() == old(self).delivered()
                    &&& final(self).ended() == old(self).ended()
                    &&& final(self).failures() == old(self).failures() + 1
                },
            },
    ;

    /// The compressed bytes taken from the network or disk so far.
    fn bytes_read(&self) -> u64;

    /// The compressed length of the whole stream, where it is known.
    fn content_length(&self) -> Option<u64>;
}

/// The byte that ends a line.
pub const NEWLINE: u8 = 10;

/// The bytes of `s` after its last newline (all of `s` where it has none).
pub open spec fn tail(s: Seq<u8>) -> Seq<u8>
    decreases s.len(),
{
    if s.len() == 0 {
        Seq::empty()
    } else if s.last() == NEWLINE {
        Seq::empty()
    } else {
        tail(s.drop_last()).push(s.last())
    }
}

/// The newline-terminated lines of `s`, without their newlines.
pub open spec fn complete_lines(s: Seq<u8>) -> Seq<Seq<u8>>
    decreases s.len(),
{
    if s.len() == 0 {
        Seq::empty()
    } else if s.last() == NEWLINE {
        complete_lines(s.drop_last()).push(tail(s.drop_last()))
    } else {
        complete_lines(s.drop_last())
    }
}

/// The lines of the stream `s`: its newline-terminated lines, then the
/// unterminated rest where that is not empty.
pub open spec fn split_lines(s: Seq<u8>) -> Seq<Seq<u8>> {
    if tail(s).len() > 0 {
        complete_lines(s).push(tail(s))
    } else {
        complete_lines(s)
    }
}

pub open spec fn byte_views(q: Seq<Vec<u8>>) -> Seq<Seq<u8>> {
    q.map_values(|v: Vec<u8>| v@)
}

/// Relies on String::from_utf8: it succeeds exactly on valid UTF-8 and then
/// holds the decoded characters.
#[verifier::external_body]
fn string_from_utf8(b: Vec<u8>) -> (r: Result<String, std::string::FromUtf8Error>)
    ensures
        match r {
            Ok(s) => valid_utf8(b@) && s@ == decode_utf8(b@),
            Err(_) => !valid_utf8(b@),
        },
{
    String::from_utf8(b)
}

pub enum LineIterError<E> {
    /// The stream has ended and every line has been handed out.
    Eof,
    /// The source failed.
    Input(E),
    /// A line is not valid UTF-8.
    Utf8(std::string::FromUtf8Error),
}

/// How many bytes the framer asks its source for at a time.
pub const READ_SIZE: usize = 1024;

/// Cuts the bytes of a source into lines. A stream of more than `u64::MAX`
/// bytes ends there.
pub struct InputLineIter<I> {
    pub input: I,
    /// The decompressed bytes taken from the source so far.
    pub bytes_read: u64,
    line_buf: Vec<u8>,
    pending_lines: VecDeque<Vec<u8>>,
    at_end: bool,
    consumed: Ghost<Seq<u8>>,
    taken: Ghost<Seq<Seq<u8>>>,
    base: Ghost<Seq<u8>>,
}

impl<I: DataInput> InputLineIter<I> {
    /// The bytes taken from the source so far.
    pub closed spec fn consumed(&self) -> Seq<u8> {
        self.consumed@
    }

    /// The lines handed out so far, as bytes; an invalid one included.
    pub closed spec fn taken(&self) -> Seq<Seq<u8>> {
        self.taken@
    }

    /// Whether the source has reported the end of the stream.
    pub closed spec fn at_end(&self) -> bool {
        self.at_end
    }

    /// The source.
    pub closed spec fn source(&self) -> I {
        self.input
    }

    /// What the source had handed out before the framer took it over.
    pub closed spec fn source_base(&self) -> Seq<u8> {
        self.base@
    }

    pub closed spec fn wf(&self) -> bool {
        &&& self.lines_ok()
        &&& (self.base@ + self.consumed@).is_prefix_of(self.input.delivered())
        &&& self.input.delivered() == self.base@ + self.consumed@ || (self.at_end
            && self.input.delivered().len() > self.base@.len() + u64::MAX)
        &&& self.at_end ==> self.input.ended() || self.input.delivered().len() > self.base@.len()
            + u64::MAX
    }

    closed spec fn lines_ok(&self) -> bool {
        &&& self.bytes_read == self.consumed@.len()
        &&& !self.at_end ==> {
            &&& self.taken@ + byte_views(self.pending_lines@) == complete_lines(self.consumed@)
            &&& self.line_buf@ == tail(self.consumed@)
        }
        &&& self.at_end ==> {
            &&& self.taken@ + byte_views(self.pending_lines@) == split_lines(self.consumed@)
            &&& self.line_buf@.len() == 0
        }
    }

    pub fn new(input: I) -> (r: Self)
        ensures
            r.wf(),
            r.source() == input,
            r.source_base() == input.delivered(),
            r.consumed() == Seq::<u8>::empty(),
            r.taken() == Seq::<Seq<u8>>::empty(),
            !r.at_end(),
    {
        let ghost base = input.delivered();
        let r = InputLineIter {
            input,
            bytes_read: 0,
            line_buf: Vec::new(),
            pending_lines: VecDeque::new(),
            at_end: false,
            consumed: Ghost(Seq::empty()),
            taken: Ghost(Seq::empty()),
            base: Ghost(base),
        };
        assert(r.base@ + r.consumed@ =~= base);
        assert(r.taken@ + byte_views(r.pending_lines@) =~= complete_lines(r.consumed@));
        r
    }

    /// The decompressed bytes taken from the source so far.
    pub fn decoded_len(&self) -> (r: u64)
        requires
            self.wf(),
        ensures
            r == self.consumed().len(),
    {
        self.bytes_read
    }

    /// Cuts the chunk `chunk`, just read, into the pending lines.
    fn take_chunk(&mut self, chunk: &Vec<u8>)
        requires
            old(self).lines_ok(),
            !old(self).at_end,
            old(self).bytes_read + chunk@.len() <= u64::MAX,
        ensures
            final(self).lines_ok(),
            final(self).base@ == old(self).base@,
            !final(self).at_end,
            final(self).consumed@ == old(self).consumed@ + chunk@,
            final(self).taken@ == old(self).taken@,
            final(self).input == old(self).input,
    {
        let ghost start = self.consumed@;
        let ghost taken0 = self.taken@;
        let ghost input0 = self.input;
        let ghost base0 = self.base@;
        let mut j: usize = 0;
        assert(start + chunk@.subrange(0, 0) =~= start);
        while j < chunk.len()
            invariant
                j <= chunk@.len(),
                self.consumed@ == start,
                self.taken@ == taken0,
                self.input == input0,
                self.base@ == base0,
                self.bytes_read == start.len(),
                start.len() + chunk@.len() <= u64::MAX,
                !self.at_end,
                self.taken@ + byte_views(self.pending_lines@) == complete_lines(
                    start + chunk@.subrange(0, j as int),
                ),
                self.line_buf@ == tail(start + chunk@.subrange(0, j as int)),
            decreases chunk@.len() - j,
        {
            let b = chunk[j];
            let ghost s = start + chunk@.subrange(0, j as int);
            assert(start + chunk@.subrange(0, j + 1) =~= s.push(b));
            assert(s.push(b).drop_last() =~= s);
            if b == NEWLINE {
                let mut line: Vec<u8> = Vec::new();
                std::mem::swap(&mut line, &mut self.line_buf);
                let ghost q = self.pending_lines@;
                self.pending_lines.push_back(line);
                assert(byte_views(self.pending_lines@) =~= byte_views(q).push(line@));
                assert(self.taken@ + byte_views(self.pending_lines@) =~= (self.taken@ + byte_views(q)).push(line@));
            } else {
                self.line_buf.push(b);
            }
            j = j + 1;
        }
        assert(chunk@.subrange(0, j as int) =~= chunk@);
        self.consumed = Ghost(start + chunk@);
        self.bytes_read = self.bytes_read + chunk.len() as u64;
    }

    /// Marks the end of the stream: the unterminated rest becomes the last
    /// line.
    fn close(&mut self)
        requires
            old(self).lines_ok(),
            !old(self).at_end,
        ensures
            final(self).lines_ok(),
            final(self).base@ == old(self).base@,
            final(self).at_end,
            final(self).consumed@ == old(self).consumed@,
            final(self).taken@ == old(self).taken@,
            final(self).bytes_read == old(self).bytes_read,
            final(self).input == old(self).input,
    {
        self.at_end = true;
        if self.line_buf.len() > 0 {
            let mut line: Vec<u8> = Vec::new();
            std::mem::swap(&mut line, &mut self.line_buf);
            let ghost q = self.pending_lines@;
            self.pending_lines.push_back(line);
            assert(byte_views(self.pending_lines@) =~= byte_views(q).push(line@));
            assert(self.taken@ + byte_views(self.pending_lines@) =~= (self.taken@ + byte_views(q)).push(line@));
        }
    }

    /// The next line of the stream, decoded as UTF-8. Every line comes out
    /// once, in order; then `Eof`, once the source has ended.
    pub fn next(&mut self) -> (r: Result<String, LineIterError<I::Error>>)
        requires
            old(self).wf(),
        ensures
            final(self).wf(),
            old(self).consumed().is_prefix_of(final(self).consumed()),
            final(self).taken().is_prefix_of(split_lines(final(self).consumed())),
            r matches Ok(line) ==> exists|b: Seq<u8>|
                final(self).taken() == old(self).taken().push(b) && valid_utf8(b) && line@
                    == decode_utf8(b),
            r matches Err(LineIterError::Utf8(_)) ==> exists|b: Seq<u8>|
                final(self).taken() == old(self).taken().push(b) && !valid_utf8(b),
            r matches Err(LineIterError::Eof) ==> final(self).at_end() && final(self).taken()
                == split_lines(final(self).consumed()),
            r matches Err(LineIterError::Input(_)) ==> final(self).taken() == old(self).taken()
                && !final(self).at_end(),
            r is Err && r->Err_0 is Input <==> final(self).source().failures() > old(
                self,
            ).source().failures(),
            final(self).source().failures() <= old(self).source().failures() + 1,
            final(self).source_base() == old(self).source_base(),
            (final(self).source_base() + final(self).consumed()).is_prefix_of(
                final(self).source().delivered(),
            ),
            final(self).source().delivered() == final(self).source_base() + final(self).consumed()
                || final(self).source().delivered().len() > final(self).source_base().len()
                + u64::MAX,
            r matches Err(LineIterError::Eof) ==> final(self).source().ended()
                || final(self).source().delivered().len() > final(self).source_base().len()
                + u64::MAX,
    {
        let ghost start = self.consumed@;
        let ghost taken0 = self.taken@;
        loop
            invariant
                self.wf(),
                start.is_prefix_of(self.consumed@),
                self.taken@ == taken0,
                start == old(self).consumed@,
                taken0 == old(self).taken@,
                self.base@ == old(self).base@,
                self.input.failures() == old(self).input.failures(),
            decreases u64::MAX - self.bytes_read, if self.at_end { 0int } else { 1int },
        {
            proof {
                lemma_complete_prefix(self.consumed@);
            }
            let ghost q = self.pending_lines@;
            if let Some(b) = self.pending_lines.pop_front() {
                assert(byte_views(q) =~= seq![b@] + byte_views(self.pending_lines@));
                self.taken = Ghost(self.taken@.push(b@));
                assert(self.taken@ + byte_views(self.pending_lines@) =~= taken0 + byte_views(q));
                assert(self.taken@ =~= (taken0 + byte_views(q)).subrange(0, self.taken@.len() as int));
                return match string_from_utf8(b) {
                    Ok(line) => Ok(line),
                    Err(e) => Err(LineIterError::Utf8(e)),
                };
            }
            assert(self.taken@ =~= self.taken@ + byte_views(q));
            if self.at_end {
                return Err(LineIterError::Eof);
            }
            let ghost d0 = self.input.delivered();
            let chunk = match self.input.read(READ_SIZE) {
                Ok(c) => c,
                Err(e) => {
                    return Err(LineIterError::Input(e));
                },
            };
            let ghost c0 = self.consumed@;
            if chunk.len() == 0 || chunk.len() as u64 > u64::MAX - self.bytes_read {
                self.close();
            } else {
                self.take_chunk(&chunk);
                assert(self.consumed@.subrange(0, start.len() as int) =~= c0.subrange(0, start.len() as int));
                assert(self.input.delivered() =~= self.base@ + self.consumed@);
            }
            assert((self.base@ + self.consumed@).is_prefix_of(self.input.delivered())) by {
                assert((self.base@ + self.consumed@) =~= self.input.delivered().subrange(
                    0,
                    (self.base@ + self.consumed@).len() as int,
                ));
            }
        }
    }
}


/// The newline-terminated lines of a stream lead its lines.
pub proof fn lemma_complete_prefix(s: Seq<u8>)
    ensures
        complete_lines(s).is_prefix_of(split_lines(s)),
{
}

} // verus!
