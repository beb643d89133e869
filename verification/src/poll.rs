//! The polling pipeline: bytes read from an appended stream, decoded to
//! UTF-8 characters, and assembled into complete lines.
//!
//! Each stage exposes one non-blocking `poll_once` step; a driver loop that
//! sleeps between empty polls sits outside the library.

use crate::error::EventError;
use vstd::prelude::*;
use vstd::utf8::{decode_utf8, valid_utf8};

verus! {

/// One character fed to the line assembler: a newline closes the pending
/// buffer out as a completed line, any other character extends it.
pub open spec fn assemble_step(lines: Seq<Seq<char>>, buf: Seq<char>, c: char) -> (Seq<
    Seq<char>,
>, Seq<char>) {
    if c == '\n' {
        (lines.push(buf), Seq::empty())
    } else {
        (lines, buf.push(c))
    }
}

/// Folds a character batch into the assembler state `(completed lines,
/// pending buffer)`.
pub open spec fn assemble(lines: Seq<Seq<char>>, buf: Seq<char>, cs: Seq<char>) -> (Seq<
    Seq<char>,
>, Seq<char>)
    decreases cs.len(),
{
    if cs.len() == 0 {
        (lines, buf)
    } else {
        let st = assemble_step(lines, buf, cs[0]);
        assemble(st.0, st.1, cs.drop_first())
    }
}

/// The complete lines contained in `cs`, newline terminators excluded.
pub open spec fn split_complete(cs: Seq<char>) -> Seq<Seq<char>> {
    assemble(Seq::empty(), Seq::empty(), cs).0
}

/// The unterminated trailing fragment of `cs`.
pub open spec fn split_rest(cs: Seq<char>) -> Seq<char> {
    assemble(Seq::empty(), Seq::empty(), cs).1
}

/// The mathematical view of a batch of lines: each line's characters.
pub open spec fn lines_view(lines: Seq<String>) -> Seq<Seq<char>> {
    lines.map_values(|l: String| l@)
}

/// `lines` re-joined with a newline after each line.
pub open spec fn join_lines(lines: Seq<Seq<char>>) -> Seq<char>
    decreases lines.len(),
{
    if lines.len() == 0 {
        Seq::empty()
    } else {
        join_lines(lines.drop_last()) + lines.last() + seq!['\n']
    }
}

pub proof fn lemma_assemble_snoc(lines: Seq<Seq<char>>, buf: Seq<char>, cs: Seq<char>, c: char)
    ensures
        assemble(lines, buf, cs.push(c)).0 == assemble_step(
            assemble(lines, buf, cs).0,
            assemble(lines, buf, cs).1,
            c,
        ).0,
        assemble(lines, buf, cs.push(c)).1 == assemble_step(
            assemble(lines, buf, cs).0,
            assemble(lines, buf, cs).1,
            c,
        ).1,
    decreases cs.len(),
{
    if cs.len() == 0 {
        assert(cs.push(c)[0] == c);
        assert(cs.push(c).drop_first() =~= Seq::<char>::empty());
        let st = assemble_step(lines, buf, c);
        assert(assemble(lines, buf, cs.push(c)).0 == assemble(st.0, st.1, Seq::empty()).0);
        assert(assemble(lines, buf, cs.push(c)).1 == assemble(st.0, st.1, Seq::empty()).1);
        assert(assemble(st.0, st.1, Seq::empty()).0 == st.0);
        assert(assemble(lines, buf, cs).0 == lines);
        assert(assemble(lines, buf, cs).1 == buf);
    } else {
        assert(cs.push(c)[0] == cs[0]);
        assert(cs.push(c).drop_first() =~= cs.drop_first().push(c));
        let st = assemble_step(lines, buf, cs[0]);
        assert(assemble(lines, buf, cs.push(c)).0 == assemble(st.0, st.1, cs.drop_first().push(c)).0);
        assert(assemble(lines, buf, cs.push(c)).1 == assemble(st.0, st.1, cs.drop_first().push(c)).1);
        lemma_assemble_snoc(st.0, st.1, cs.drop_first(), c);
    }
}

/// Law: feeding two batches one after the other leaves the assembler exactly
/// where feeding their concatenation would.
pub proof fn lemma_assemble_append(
    lines: Seq<Seq<char>>,
    buf: Seq<char>,
    cs1: Seq<char>,
    cs2: Seq<char>,
)
    ensures
        assemble(lines, buf, cs1 + cs2).0 == assemble(
            assemble(lines, buf, cs1).0,
            assemble(lines, buf, cs1).1,
            cs2,
        ).0,
        assemble(lines, buf, cs1 + cs2).1 == assemble(
            assemble(lines, buf, cs1).0,
            assemble(lines, buf, cs1).1,
            cs2,
        ).1,
    decreases cs1.len(),
{
    if cs1.len() == 0 {
        assert(cs1 + cs2 =~= cs2);
    } else {
        assert((cs1 + cs2)[0] == cs1[0]);
        assert((cs1 + cs2).drop_first() =~= cs1.drop_first() + cs2);
        let st = assemble_step(lines, buf, cs1[0]);
        lemma_assemble_append(st.0, st.1, cs1.drop_first(), cs2);
    }
}

proof fn lemma_assemble_reconstruct(lines: Seq<Seq<char>>, buf: Seq<char>, cs: Seq<char>)
    ensures
        ({
            let a = assemble(lines, buf, cs);
            join_lines(a.0) + a.1 =~= join_lines(lines) + buf + cs
        }),
    decreases cs.len(),
{
    if cs.len() > 0 {
        let c = cs[0];
        let st = assemble_step(lines, buf, c);
        lemma_assemble_reconstruct(st.0, st.1, cs.drop_first());
        if c == '\n' {
            assert(lines.push(buf).drop_last() =~= lines);
            assert(lines.push(buf).last() == buf);
            assert(join_lines(lines.push(buf)) =~= join_lines(lines) + buf + seq!['\n']);
            assert(join_lines(lines) + buf + seq!['\n'] + cs.drop_first() =~= join_lines(lines)
                + buf + cs);
        } else {
            assert(buf.push(c) + cs.drop_first() =~= buf + cs);
            assert(join_lines(lines) + buf.push(c) + cs.drop_first() =~= join_lines(lines) + buf
                + cs);
        }
    } else {
        assert(join_lines(lines) + buf + cs =~= join_lines(lines) + buf);
    }
}

/// Law: re-joining the completed lines, a newline after each, followed by the
/// unterminated rest, reproduces the input character stream.
pub proof fn lemma_lines_reconstruct(cs: Seq<char>)
    ensures
        join_lines(split_complete(cs)) + split_rest(cs) == cs,
{
    lemma_assemble_reconstruct(Seq::empty(), Seq::empty(), cs);
    let a = assemble(Seq::<Seq<char>>::empty(), Seq::<char>::empty(), cs);
    assert(join_lines(Seq::<Seq<char>>::empty()) + Seq::<char>::empty() + cs =~= cs);
}

/// Relies on `std::io::Read::read`: on success it returns how many of the
/// buffer's leading bytes it filled, never more than the buffer holds, and
/// never resizes the buffer.
#[verifier::external_body]
fn read_some<T: std::io::Read>(read_from: &mut T, buf: &mut Vec<u8>) -> (r: Result<
    usize,
    std::io::Error,
>)
    ensures
        final(buf)@.len() == old(buf)@.len(),
        r is Ok ==> r->Ok_0 <= old(buf)@.len(),
{
    read_from.read(buf.as_mut_slice())
}

/// Relies on `String::from_utf8`: it succeeds exactly on valid UTF-8 input
/// and decodes it to the characters that vstd's UTF-8 model gives.
#[verifier::external_body]
fn utf8_chars(bytes: Vec<u8>) -> (r: Option<Vec<char>>)
    ensures
        r is Some <==> valid_utf8(bytes@),
        r is Some ==> r->0@ == decode_utf8(bytes@),
{
    match String::from_utf8(bytes) {
        Ok(s) => Some(s.chars().collect()),
        Err(_) => None,
    }
}

/// Decodes one polled byte batch as UTF-8. The batch must be valid on its
/// own: a multi-byte codepoint split across two batches is a decode error,
/// not silently repaired.
pub fn decode_batch(bytes: Vec<u8>) -> (r: Result<Vec<char>, EventError>)
    ensures
        r is Ok <==> valid_utf8(bytes@),
        r is Ok ==> r->Ok_0@ == decode_utf8(bytes@),
        r is Err ==> r->Err_0 is Decode,
{
    match utf8_chars(bytes) {
        Some(chars) => Ok(chars),
        None => Err(EventError::Decode),
    }
}

/// Polls a `Read` implementation for newly appended bytes.
pub struct BytePoll<T> {
    read_from: T,
    wait_delay: u64,
    buffer: Vec<u8>,
}

impl<T> BytePoll<T> {
    /// The configured delay between empty polls, in milliseconds.
    pub closed spec fn delay(self) -> u64 {
        self.wait_delay
    }

    /// How many bytes one poll can return at most.
    pub closed spec fn capacity(self) -> nat {
        self.buffer@.len()
    }

    /// Create a new `BytePoll` using
    /// `read_from` A read implementation, for example a file
    /// `wait_delay` How long to wait between polls, in milliseconds
    /// `buffer_len` Poll buffer length
    pub fn new(read_from: T, wait_delay: u64, buffer_len: usize) -> (r: Result<
        Self,
        std::io::Error,
    >)
        ensures
            r is Ok,
            r->Ok_0.delay() == wait_delay,
            r->Ok_0.capacity() == buffer_len,
    {
        Ok(BytePoll { read_from, wait_delay, buffer: vec![0u8; buffer_len] })
    }

    /// The configured delay between empty polls, for the driving loop.
    pub fn wait_delay(&self) -> (r: u64)
        ensures
            r == self.delay(),
    {
        self.wait_delay
    }
}

impl<T: std::io::Read> BytePoll<T> {
    /// One poll attempt: `Ok(Some(bytes))` with the newly appended bytes when
    /// there were any, `Ok(None)` when the stream had nothing new (the caller
    /// waits `delay()` milliseconds and retries), `Err` on a read failure.
    pub fn poll_once(&mut self) -> (r: Result<Option<Vec<u8>>, std::io::Error>)
        ensures
            final(self).delay() == old(self).delay(),
            final(self).capacity() == old(self).capacity(),
            r is Ok && r->Ok_0 is Some ==> 1 <= r->Ok_0->0@.len() <= old(self).capacity(),
    {
        let n = match read_some(&mut self.read_from, &mut self.buffer) {
            Ok(n) => n,
            Err(e) => {
                return Err(e);
            },
        };
        if n == 0 {
            return Ok(None);
        }
        let mut out: Vec<u8> = Vec::new();
        let mut i: usize = 0;
        while i < n
            invariant
                0 <= i <= n <= self.buffer@.len(),
                out@ == self.buffer@.subrange(0, i as int),
            decreases n - i,
        {
            out.push(self.buffer[i]);
            assert(out@ =~= self.buffer@.subrange(0, i + 1 as int));
            i = i + 1;
        }
        Ok(Some(out))
    }
}

/// Polls a `Read` implementation for new UTF-8 characters.
pub struct CharPoll<T> {
    byte_poll: BytePoll<T>,
}

impl<T> CharPoll<T> {
    /// The configured delay between empty polls, in milliseconds.
    pub closed spec fn delay(self) -> u64 {
        self.byte_poll.delay()
    }

    /// How many bytes one poll can return at most.
    pub closed spec fn capacity(self) -> nat {
        self.byte_poll.capacity()
    }

    /// Create a new `CharPoll` using
    /// `read_from` A read implementation, for example a file
    /// `wait_delay` How long to wait between polls, in milliseconds
    /// `buffer_len` Poll buffer length
    pub fn new(read_from: T, wait_delay: u64, buffer_len: usize) -> (r: Result<
        Self,
        std::io::Error,
    >)
        ensures
            r is Ok,
            r->Ok_0.delay() == wait_delay,
            r->Ok_0.capacity() == buffer_len,
    {
        let byte_poll = match BytePoll::new(read_from, wait_delay, buffer_len) {
            Ok(b) => b,
            Err(e) => {
                return Err(e);
            },
        };
        Ok(CharPoll { byte_poll })
    }

    /// The configured delay between empty polls, for the driving loop.
    pub fn wait_delay(&self) -> (r: u64)
        ensures
            r == self.delay(),
    {
        self.byte_poll.wait_delay()
    }
}

impl<T: std::io::Read> CharPoll<T> {
    /// One poll attempt: decodes the newly appended bytes, if any, as UTF-8.
    /// Whatever the stream delivered, a returned batch is the exact decoding
    /// of some non-empty valid byte batch that fits the poll buffer.
    pub fn poll_once(&mut self) -> (r: Result<Option<Vec<char>>, EventError>)
        ensures
            final(self).delay() == old(self).delay(),
            final(self).capacity() == old(self).capacity(),
            r is Ok && r->Ok_0 is Some ==> exists|bs: Seq<u8>|
                {
                    &&& valid_utf8(bs)
                    &&& 1 <= bs.len() <= old(self).capacity()
                    &&& r->Ok_0->0@ == decode_utf8(bs)
                },
            r is Err ==> r->Err_0 is Io || r->Err_0 is Decode,
    {
        let bytes = match self.byte_poll.poll_once() {
            Ok(Some(bytes)) => bytes,
            Ok(None) => {
                return Ok(None);
            },
            Err(e) => {
                return Err(EventError::Io(e));
            },
        };
        let ghost bs = bytes@;
        match decode_batch(bytes) {
            Ok(chars) => {
                proof {
                    assert(valid_utf8(bs) && 1 <= bs.len() <= old(self).capacity() && chars@
                        == decode_utf8(bs));
                }
                Ok(Some(chars))
            },
            Err(e) => Err(e),
        }
    }
}

impl<T> From<BytePoll<T>> for CharPoll<T> {
    /// Wrap an existing byte poller.
    fn from(byte_poll: BytePoll<T>) -> (r: Self) {
        CharPoll { byte_poll }
    }
}

impl<T> vstd::std_specs::convert::FromSpecImpl<BytePoll<T>> for CharPoll<T> {
    open spec fn obeys_from_spec() -> bool {
        true
    }

    closed spec fn from_spec(byte_poll: BytePoll<T>) -> Self {
        CharPoll { byte_poll }
    }
}

/// Polls a `Read` implementation for newly appended complete lines. A line
/// without its terminating newline yet is buffered, never returned.
pub struct StringLinePoll<T> {
    char_poll: CharPoll<T>,
    char_buffer: Vec<char>,
}

impl<T> StringLinePoll<T> {
    /// The configured delay between empty polls, in milliseconds.
    pub closed spec fn delay(self) -> u64 {
        self.char_poll.delay()
    }

    /// How many bytes one poll can return at most.
    pub closed spec fn capacity(self) -> nat {
        self.char_poll.capacity()
    }

    /// The unterminated line fragment held back until its newline arrives.
    pub closed spec fn buffered(self) -> Seq<char> {
        self.char_buffer@
    }

    /// Create a new `StringLinePoll` using
    /// `read_from` A read implementation, for example a file
    /// `wait_delay` How long to wait between polls, in milliseconds
    /// `buffer_len` Poll buffer length
    pub fn new(read_from: T, wait_delay: u64, buffer_len: usize) -> (r: Result<
        Self,
        std::io::Error,
    >)
        ensures
            r is Ok,
            r->Ok_0.delay() == wait_delay,
            r->Ok_0.capacity() == buffer_len,
            r->Ok_0.buffered() == Seq::<char>::empty(),
    {
        let char_poll = match CharPoll::new(read_from, wait_delay, buffer_len) {
            Ok(c) => c,
            Err(e) => {
                return Err(e);
            },
        };
        Ok(StringLinePoll { char_poll, char_buffer: Vec::new() })
    }

    /// The configured delay between empty polls, for the driving loop.
    pub fn wait_delay(&self) -> (r: u64)
        ensures
            r == self.delay(),
    {
        self.char_poll.wait_delay()
    }

    /// Feeds one character batch into the assembler: completed lines come
    /// out, the unterminated tail stays buffered for the next batch.
    pub fn accept_chars(&mut self, chars: &Vec<char>) -> (lines: Vec<String>)
        ensures
            lines_view(lines@) == assemble(
                Seq::empty(),
                old(self).buffered(),
                chars@,
            ).0,
            final(self).buffered() == assemble(Seq::empty(), old(self).buffered(), chars@).1,
            final(self).delay() == old(self).delay(),
            final(self).capacity() == old(self).capacity(),
    {
        let ghost old_buf = self.char_buffer@;
        let mut lines: Vec<String> = Vec::new();
        assert(lines_view(lines@) =~= assemble(
            Seq::empty(),
            old_buf,
            chars@.take(0),
        ).0);
        assert(chars@.take(0) =~= Seq::<char>::empty());
        let mut i: usize = 0;
        while i < chars.len()
            invariant
                0 <= i <= chars@.len(),
                lines_view(lines@) == assemble(
                    Seq::empty(),
                    old_buf,
                    chars@.take(i as int),
                ).0,
                self.char_buffer@ == assemble(Seq::empty(), old_buf, chars@.take(i as int)).1,
                self.char_poll == old(self).char_poll,
            decreases chars@.len() - i,
        {
            proof {
                assert(chars@.take(i + 1 as int) =~= chars@.take(i as int).push(chars@[i as int]));
                lemma_assemble_snoc(Seq::empty(), old_buf, chars@.take(i as int), chars@[i as int]);
            }
            let c = chars[i];
            if c == '\n' {
                let line = crate::text::collect_string(&self.char_buffer);
                let ghost before = lines@;
                lines.push(line);
                assert(lines_view(lines@) =~= lines_view(before).push(
                    line@,
                ));
                self.char_buffer.clear();
            } else {
                self.char_buffer.push(c);
            }
            i = i + 1;
        }
        assert(chars@.take(chars@.len() as int) =~= chars@);
        lines
    }
}

impl<T: std::io::Read> StringLinePoll<T> {
    /// One poll attempt: `Ok` with the lines completed by the newly appended
    /// bytes — possibly none, in which case the caller waits `delay()`
    /// milliseconds and polls again. Whatever the stream delivered, the
    /// returned lines and the kept fragment are exactly what assembling the
    /// decoded batch onto the old fragment gives.
    pub fn poll_once(&mut self) -> (r: Result<Vec<String>, EventError>)
        ensures
            final(self).delay() == old(self).delay(),
            final(self).capacity() == old(self).capacity(),
            r is Ok ==> exists|cs: Seq<char>|
                {
                    &&& lines_view(r->Ok_0@) == assemble(
                        Seq::empty(),
                        old(self).buffered(),
                        cs,
                    ).0
                    &&& final(self).buffered() == assemble(
                        Seq::empty(),
                        old(self).buffered(),
                        cs,
                    ).1
                },
            r is Err ==> r->Err_0 is Io || r->Err_0 is Decode,
    {
        let chars = match self.char_poll.poll_once() {
            Ok(Some(chars)) => chars,
            Ok(None) => {
                let empty: Vec<String> = Vec::new();
                proof {
                    let cs = Seq::<char>::empty();
                    assert(lines_view(empty@) =~= assemble(
                        Seq::empty(),
                        old(self).buffered(),
                        cs,
                    ).0);
                }
                return Ok(empty);
            },
            Err(e) => {
                return Err(e);
            },
        };
        let lines = self.accept_chars(&chars);
        proof {
            let cs = chars@;
            assert(lines_view(lines@) == assemble(
                Seq::empty(),
                old(self).buffered(),
                cs,
            ).0);
        }
        Ok(lines)
    }
}

impl<T> From<CharPoll<T>> for StringLinePoll<T> {
    /// Wrap an existing character poller, with an empty line buffer.
    fn from(char_poll: CharPoll<T>) -> (r: Self) {
        StringLinePoll { char_poll, char_buffer: Vec::new() }
    }
}

impl<T> vstd::std_specs::convert::FromSpecImpl<CharPoll<T>> for StringLinePoll<T> {
    /// A spec-level `Vec` for the fresh empty buffer cannot be written down,
    /// so `from` promises nothing; `new` is the contracted constructor.
    open spec fn obeys_from_spec() -> bool {
        false
    }

    closed spec fn from_spec(char_poll: CharPoll<T>) -> Self {
        vstd::pervasive::arbitrary()
    }
}

} // verus!
