//! The line framer: from a stream of bytes in chunks of any size to lines.
//!
//! A line is what stands between two line feeds, the line feeds left out.
//! The framer keeps what has arrived and is not yet a whole line, and gives
//! out every line as soon as its line feed is there, in the order of arrival.
//! How the stream is cut into chunks does not change what comes out. Nothing
//! bounds the length of a line: text without a line feed is kept until one
//! arrives.

use crate::split::free_of;
use crate::split::lemma_split_concat;
use crate::split::lemma_split_free;
use crate::split::lemma_split_len;
use crate::split::lemma_split_parts_clean;
use crate::split::split;
use crate::split::views;
use vstd::prelude::*;
use vstd::utf8::decode_utf8;
use vstd::utf8::valid_utf8;

verus! {

/// The byte that ends a line.
pub const LINE_FEED: u8 = 0x0a;

/// The whole lines of a stream, in order: every part that a line feed ends.
pub open spec fn lines_of(stream: Seq<u8>) -> Seq<Seq<u8>> {
    split(stream, LINE_FEED).drop_last()
}

/// What follows the last line feed of a stream: the beginning of a line that
/// is not whole yet.
pub open spec fn residue_of(stream: Seq<u8>) -> Seq<u8> {
    split(stream, LINE_FEED).last()
}

/// A stream whose first line feed stands at `n` begins with the line before it,
/// and goes on as the stream after it does.
pub proof fn lemma_first_line(stream: Seq<u8>, n: int)
    requires
        0 <= n < stream.len(),
        stream[n] == LINE_FEED,
        free_of(stream.take(n), LINE_FEED),
    ensures
        lines_of(stream) == seq![stream.take(n)] + lines_of(stream.skip(n + 1)),
        residue_of(stream) == residue_of(stream.skip(n + 1)),
{
    let head = stream.take(n + 1);
    let tail = stream.skip(n + 1);
    assert(head.drop_last() =~= stream.take(n));
    lemma_split_free(stream.take(n), LINE_FEED);
    assert(split(head, LINE_FEED) =~= seq![stream.take(n), Seq::<u8>::empty()]);
    lemma_split_concat(head, tail, LINE_FEED);
    lemma_split_len(tail, LINE_FEED);
    assert(head + tail =~= stream);
    let parts = split(tail, LINE_FEED);
    assert(Seq::<u8>::empty() + parts.first() =~= parts.first());
    assert(split(stream, LINE_FEED) =~= seq![stream.take(n)] + parts);
    assert(lines_of(stream) =~= seq![stream.take(n)] + lines_of(tail));
}

/// Text without a line feed holds no line and is all residue.
pub proof fn lemma_no_line_feed_no_line(stream: Seq<u8>)
    requires
        free_of(stream, LINE_FEED),
    ensures
        lines_of(stream) == Seq::<Seq<u8>>::empty(),
        residue_of(stream) == stream,
{
    lemma_split_free(stream, LINE_FEED);
    assert(lines_of(stream) =~= Seq::<Seq<u8>>::empty());
}

/// The residue holds no line feed, and neither does any line.
pub proof fn lemma_lines_are_clean(stream: Seq<u8>)
    ensures
        free_of(residue_of(stream), LINE_FEED),
        forall|k: int|
            0 <= k < lines_of(stream).len() ==> free_of(#[trigger] lines_of(stream)[k], LINE_FEED),
{
    lemma_split_parts_clean(stream, LINE_FEED);
    lemma_split_len(stream, LINE_FEED);
    let parts = split(stream, LINE_FEED);
    assert(free_of(parts[parts.len() - 1], LINE_FEED));
    assert forall|k: int| 0 <= k < lines_of(stream).len() implies free_of(
        #[trigger] lines_of(stream)[k],
        LINE_FEED,
    ) by {
        assert(lines_of(stream)[k] == parts[k]);
    }
}

/// Cutting a stream in two does not change its lines: the lines of the whole
/// are the lines of the first piece, followed by the lines of what the first
/// piece left over with the second piece behind it. The same holds of what is
/// left over at the end.
pub proof fn lemma_chunking(first: Seq<u8>, second: Seq<u8>)
    ensures
        lines_of(first + second) == lines_of(first) + lines_of(residue_of(first) + second),
        residue_of(first + second) == residue_of(residue_of(first) + second),
{
    let pa = split(first, LINE_FEED);
    let pb = split(second, LINE_FEED);
    lemma_split_len(first, LINE_FEED);
    lemma_split_len(second, LINE_FEED);
    lemma_split_concat(first, second, LINE_FEED);
    lemma_split_concat(pa.last(), second, LINE_FEED);
    lemma_split_parts_clean(first, LINE_FEED);
    lemma_split_free(pa.last(), LINE_FEED);
    let joined = split(pa.last() + second, LINE_FEED);
    assert(seq![pa.last()].drop_last().push(pa.last() + pb.first()) =~= seq![
        pa.last() + pb.first(),
    ]);
    assert(joined =~= seq![pa.last() + pb.first()] + pb.skip(1));
    let whole = split(first + second, LINE_FEED);
    assert(whole =~= pa.drop_last() + joined);
    assert(whole.drop_last() =~= pa.drop_last() + joined.drop_last());
}

/// Feeding two chunks one after the other gives out the lines that feeding
/// them as one chunk gives out, and leaves the same behind: with `kept` what
/// the framer holds before, the lines of the first feed followed by the lines
/// of the second are the lines of the single feed.
pub proof fn lemma_feed_in_two(kept: Seq<u8>, first: Seq<u8>, second: Seq<u8>)
    ensures
        lines_of(kept + first) + lines_of(residue_of(kept + first) + second) == lines_of(
            kept + (first + second),
        ),
        residue_of(residue_of(kept + first) + second) == residue_of(kept + (first + second)),
{
    lemma_chunking(kept + first, second);
    assert((kept + first) + second =~= kept + (first + second));
}

/// A chunk without a line feed, fed to a framer that holds no whole line,
/// completes no line: it is added to what is kept.
pub proof fn lemma_partial_chunk_is_kept(kept: Seq<u8>, chunk: Seq<u8>)
    requires
        free_of(kept, LINE_FEED),
        free_of(chunk, LINE_FEED),
    ensures
        lines_of(kept + chunk) == Seq::<Seq<u8>>::empty(),
        residue_of(kept + chunk) == kept + chunk,
{
    assert(free_of(kept + chunk, LINE_FEED)) by {
        assert forall|i: int| 0 <= i < (kept + chunk).len() implies #[trigger] (kept + chunk)[i]
            != LINE_FEED by {
            if i < kept.len() {
                assert((kept + chunk)[i] == kept[i]);
            } else {
                assert((kept + chunk)[i] == chunk[i - kept.len()]);
            }
        }
    }
    lemma_no_line_feed_no_line(kept + chunk);
}

/// A line that is not text.
#[derive(Clone, Copy, Debug, PartialEq, Eq)]
pub struct FramingError;

/// Takes bytes as text with `String::from_utf8`. That function gives the
/// string exactly where the bytes are well-formed UTF-8, and the string then
/// holds the characters that the bytes encode; on any other input it gives an
/// error, which is mapped to `None` here.
#[verifier::external_body]
fn text_of(bytes: Vec<u8>) -> (text: Option<String>)
    ensures
        text is Some <==> valid_utf8(bytes@),
        text matches Some(s) ==> s@ == decode_utf8(bytes@),
{
    String::from_utf8(bytes).ok()
}

/// Reads a line as text. A line that is not well-formed UTF-8 is a framing
/// error: the stream it came from cannot be followed further.
pub fn decode_line(line: Vec<u8>) -> (r: Result<String, FramingError>)
    ensures
        r is Ok <==> valid_utf8(line@),
        r matches Ok(text) ==> text@ == decode_utf8(line@),
{
    match text_of(line) {
        Some(text) => Ok(text),
        None => Err(FramingError),
    }
}

/// The framer. Its view is what it keeps: the bytes that have arrived and
/// were not given out.
#[derive(Debug)]
pub struct LineCodec {
    buffer: Vec<u8>,
}

impl View for LineCodec {
    type V = Seq<u8>;

    closed spec fn view(&self) -> Seq<u8> {
        self.buffer@
    }
}

impl LineCodec {
    /// A framer that keeps nothing.
    pub fn new() -> (codec: LineCodec)
        ensures
            codec@ == Seq::<u8>::empty(),
    {
        LineCodec { buffer: Vec::new() }
    }

    /// Adds a chunk to what is kept.
    pub fn push(&mut self, chunk: &[u8])
        ensures
            final(self)@ == old(self)@ + chunk@,
    {
        let ghost before = self.buffer@;
        let mut i: usize = 0;
        while i < chunk.len()
            invariant
                i <= chunk@.len(),
                self.buffer@ == before + chunk@.take(i as int),
            decreases chunk@.len() - i,
        {
            self.buffer.push(chunk[i]);
            assert(chunk@.take(i as int + 1) =~= chunk@.take(i as int).push(chunk@[i as int]));
            i += 1;
        }
        assert(chunk@.take(i as int) =~= chunk@);
    }

    /// Tells whether a whole line is kept.
    pub fn has_line(&self) -> (b: bool)
        ensures
            b == (lines_of(self@).len() > 0),
    {
        let mut n: usize = 0;
        while n < self.buffer.len() && self.buffer[n] != LINE_FEED
            invariant
                n <= self.buffer@.len(),
                free_of(self.buffer@.take(n as int), LINE_FEED),
            decreases self.buffer@.len() - n,
        {
            assert forall|i: int| 0 <= i < n + 1 implies #[trigger] self.buffer@.take(n + 1)[i]
                != LINE_FEED by {
                if i < n {
                    assert(self.buffer@.take(n as int)[i] == self.buffer@[i]);
                }
            }
            n += 1;
        }
        proof {
            if n == self.buffer@.len() {
                assert(self.buffer@.take(n as int) =~= self.buffer@);
                lemma_no_line_feed_no_line(self.buffer@);
            } else {
                lemma_first_line(self.buffer@, n as int);
            }
        }
        n < self.buffer.len()
    }

    /// Gives out the first whole line that is kept, if there is one, and
    /// drops it and its line feed from what is kept.
    pub fn next_line(&mut self) -> (r: Option<Vec<u8>>)
        ensures
            match r {
                Some(line) => {
                    &&& lines_of(old(self)@).len() > 0
                    &&& line@ == lines_of(old(self)@).first()
                    &&& line@.len() < old(self)@.len()
                    &&& final(self)@ == old(self)@.skip(line@.len() as int + 1)
                    &&& lines_of(final(self)@) == lines_of(old(self)@).skip(1)
                    &&& residue_of(final(self)@) == residue_of(old(self)@)
                },
                None => {
                    &&& lines_of(old(self)@).len() == 0
                    &&& final(self)@ == old(self)@
                },
            },
    {
        let mut n: usize = 0;
        while n < self.buffer.len() && self.buffer[n] != LINE_FEED
            invariant
                n <= self.buffer@.len(),
                free_of(self.buffer@.take(n as int), LINE_FEED),
            decreases self.buffer@.len() - n,
        {
            assert forall|i: int| 0 <= i < n + 1 implies #[trigger] self.buffer@.take(n + 1)[i]
                != LINE_FEED by {
                if i < n {
                    assert(self.buffer@.take(n as int)[i] == self.buffer@[i]);
                }
            }
            n += 1;
        }
        if n == self.buffer.len() {
            proof {
                assert(self.buffer@.take(n as int) =~= self.buffer@);
                lemma_no_line_feed_no_line(self.buffer@);
            }
            return None;
        }
        let ghost stream = self.buffer@;
        proof {
            lemma_first_line(stream, n as int);
        }
        let mut rest = self.buffer.split_off(n + 1);
        self.buffer.pop();
        std::mem::swap(&mut self.buffer, &mut rest);
        assert(rest@ =~= stream.take(n as int));
        assert(self.buffer@ =~= stream.skip(n + 1));
        assert(lines_of(stream).skip(1) =~= lines_of(stream.skip(n + 1)));
        Some(rest)
    }

    /// Adds a chunk and gives out every line that is whole with it, in order.
    /// What is kept afterwards holds no line feed.
    pub fn feed(&mut self, chunk: &[u8]) -> (lines: Vec<Vec<u8>>)
        ensures
            views(lines@) == lines_of(old(self)@ + chunk@),
            final(self)@ == residue_of(old(self)@ + chunk@),
    {
        self.push(chunk);
        let ghost stream = self.buffer@;
        let mut lines: Vec<Vec<u8>> = Vec::new();
        assert(views(lines@) + lines_of(self@) =~= lines_of(stream));
        loop
            invariant
                views(lines@) + lines_of(self@) == lines_of(stream),
                residue_of(self@) == residue_of(stream),
            ensures
                views(lines@) == lines_of(stream),
                self@ == residue_of(stream),
            decreases self@.len(),
        {
            let ghost before = self@;
            let ghost given = views(lines@);
            match self.next_line() {
                Some(line) => {
                    lines.push(line);
                    assert(views(lines@) =~= given.push(line@));
                    assert(views(lines@) + lines_of(self@) =~= given + lines_of(before));
                },
                None => {
                    proof {
                        assert(views(lines@) + lines_of(self@) =~= views(lines@));
                        lemma_split_len(self@, LINE_FEED);
                        crate::split::lemma_split_join(self@, LINE_FEED);
                        assert(split(self@, LINE_FEED) =~= seq![residue_of(self@)]);
                    }
                    break ;
                },
            }
        }
        lines
    }

    /// Gives out the first whole line that is kept as text.
    ///
    /// With no whole line there is nothing to give and nothing changes. A
    /// line that is not well-formed UTF-8 is dropped like any other, and
    /// reported as a framing error.
    pub fn decode(&mut self) -> (r: Result<Option<String>, FramingError>)
        ensures
            lines_of(old(self)@).len() == 0 ==> r == Ok::<Option<String>, FramingError>(None)
                && final(self)@ == old(self)@,
            lines_of(old(self)@).len() > 0 ==> {
                &&& final(self)@ == old(self)@.skip(lines_of(old(self)@).first().len() as int + 1)
                &&& lines_of(final(self)@) == lines_of(old(self)@).skip(1)
                &&& residue_of(final(self)@) == residue_of(old(self)@)
                &&& if valid_utf8(lines_of(old(self)@).first()) {
                    r matches Ok(Some(text)) && text@ == decode_utf8(lines_of(old(self)@).first())
                } else {
                    r is Err
                }
            },
    {
        match self.next_line() {
            Some(line) => match decode_line(line) {
                Ok(text) => Ok(Some(text)),
                Err(e) => Err(e),
            },
            None => Ok(None),
        }
    }
}

} // verus!
