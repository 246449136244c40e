use vstd::prelude::*;
use vstd::utf8::{decode_utf8, valid_utf8};

use crate::error::ExtractionError;

verus! {

/// The byte that ends a line.
pub const LINE_FEED: u8 = 10;

/// A carriage return, dropped where it stands just before the line feed.
pub const CARRIAGE_RETURN: u8 = 13;

/// Relies on `String::from_utf8`: it succeeds exactly when the bytes are
/// valid UTF-8, and then holds the characters they encode.
#[verifier::external_body]
fn string_from_utf8(bytes: Vec<u8>) -> (r: Option<String>)
    ensures
        r is Some <==> valid_utf8(bytes@),
        r matches Some(s) ==> s@ == decode_utf8(bytes@),
{
    String::from_utf8(bytes).ok()
}

/// The bytes of a line without a carriage return that may end them.
pub open spec fn strip_cr(b: Seq<u8>) -> Seq<u8> {
    if b.len() > 0 && b.last() == CARRIAGE_RETURN {
        b.drop_last()
    } else {
        b
    }
}

/// What the bytes of a line (its terminator removed) decode to: its
/// characters, or the reason it is refused.
pub open spec fn decode_line(b: Seq<u8>) -> Result<Seq<char>, ExtractionError> {
    if !valid_utf8(strip_cr(b)) {
        Err(ExtractionError::InvalidUtf8)
    } else if decode_utf8(strip_cr(b)).len() < 2 {
        Err(ExtractionError::TooSmall)
    } else {
        Ok(decode_utf8(strip_cr(b)))
    }
}

/// Whether `i` is the position of the first line feed in `s`.
pub open spec fn first_line_end(s: Seq<u8>, i: int) -> bool {
    &&& 0 <= i < s.len()
    &&& s[i] == LINE_FEED
    &&& forall|j: int| 0 <= j < i ==> s[j] != LINE_FEED
}

/// Whether `s` holds a line feed.
pub open spec fn has_line_end(s: Seq<u8>) -> bool {
    exists|i: int| 0 <= i < s.len() && s[i] == LINE_FEED
}

/// The complete lines of `s` (each without its line feed) and the bytes
/// after the last line feed, which still wait for theirs.
pub open spec fn split_lines(s: Seq<u8>) -> (Seq<Seq<u8>>, Seq<u8>)
    decreases s.len(),
{
    if s.len() == 0 {
        (Seq::empty(), Seq::empty())
    } else {
        let (lines, rest) = split_lines(s.drop_last());
        if s.last() == LINE_FEED {
            (lines.push(rest), Seq::empty())
        } else {
            (lines, rest.push(s.last()))
        }
    }
}

/// A line shorter than two characters is refused before its prefix is read.
pub proof fn lemma_short_line_refused(b: Seq<u8>)
    requires
        valid_utf8(strip_cr(b)),
        decode_utf8(strip_cr(b)).len() < 2,
    ensures
        decode_line(b) == Err::<Seq<char>, ExtractionError>(ExtractionError::TooSmall),
{
}

/// Bytes without a line feed make no complete line.
proof fn lemma_split_no_line_end(s: Seq<u8>)
    requires
        !has_line_end(s),
    ensures
        split_lines(s) == (Seq::<Seq<u8>>::empty(), s),
    decreases s.len(),
{
    if s.len() > 0 {
        let d = s.drop_last();
        assert(!has_line_end(d)) by {
            if has_line_end(d) {
                let j = choose|j: int| 0 <= j < d.len() && d[j] == LINE_FEED;
                assert(s[j] == LINE_FEED);
            }
        }
        lemma_split_no_line_end(d);
        assert(s.last() != LINE_FEED) by {
            if s.last() == LINE_FEED {
                assert(s[s.len() - 1] == LINE_FEED);
            }
        }
        assert(d.push(s.last()) =~= s);
    }
}

/// After a first line that ends in its line feed, the lines of the rest follow.
proof fn lemma_split_after_line(a: Seq<u8>, b: Seq<u8>)
    requires
        a.len() > 0,
        a.last() == LINE_FEED,
        !has_line_end(a.drop_last()),
    ensures
        split_lines(a + b).0 == seq![a.drop_last()] + split_lines(b).0,
        split_lines(a + b).1 == split_lines(b).1,
    decreases b.len(),
{
    if b.len() == 0 {
        assert(a + b =~= a);
        lemma_split_no_line_end(a.drop_last());
        assert(seq![a.drop_last()] + Seq::<Seq<u8>>::empty() =~= seq![a.drop_last()]);
        assert(Seq::<Seq<u8>>::empty().push(a.drop_last()) =~= seq![a.drop_last()]);
    } else {
        lemma_split_after_line(a, b.drop_last());
        assert((a + b).drop_last() =~= a + b.drop_last());
        assert((a + b).last() == b.last());
        let p = split_lines(b.drop_last());
        assert((seq![a.drop_last()] + p.0).push(p.1) =~= seq![a.drop_last()] + p.0.push(p.1));
    }
}

/// A decoded line, its characters in place of the string.
pub open spec fn line_view(r: Result<String, ExtractionError>) -> Result<Seq<char>, ExtractionError> {
    match r {
        Ok(s) => Ok(s@),
        Err(e) => Err(e),
    }
}

/// Turns a byte stream, in chunks of any size, into lines. Bytes wait in a
/// buffer until their line feed arrives, so no line is cut by the chunking and
/// no byte is lost.
pub struct LineFramer {
    buf: Vec<u8>,
}

impl View for LineFramer {
    type V = Seq<u8>;

    /// The bytes received and not yet handed out as a line.
    closed spec fn view(&self) -> Seq<u8> {
        self.buf@
    }
}

impl LineFramer {
    /// A framer with nothing buffered.
    pub fn new() -> (r: LineFramer)
        ensures
            r@ == Seq::<u8>::empty(),
    {
        LineFramer { buf: Vec::new() }
    }

    /// Appends a chunk of bytes to the buffer.
    pub fn push(&mut self, chunk: &[u8])
        ensures
            final(self)@ == old(self)@ + chunk@,
    {
        let mut i: usize = 0;
        while i < chunk.len()
            invariant
                i <= chunk@.len(),
                self@ == old(self)@ + chunk@.subrange(0, i as int),
            decreases chunk@.len() - i,
        {
            self.buf.push(chunk[i]);
            i = i + 1;
            assert(self@ =~= old(self)@ + chunk@.subrange(0, i as int));
        }
        assert(chunk@.subrange(0, i as int) =~= chunk@);
    }

    /// Takes the first complete line out of the buffer, if a line feed has
    /// arrived: its characters, or why it is refused (not UTF-8, or shorter
    /// than two characters). Without a line feed nothing changes.
    pub fn next_line(&mut self) -> (r: Option<Result<String, ExtractionError>>)
        ensures
            r is None <==> !has_line_end(old(self)@),
            r is None ==> final(self)@ == old(self)@,
            r matches Some(line) ==> exists|i: int|
                first_line_end(old(self)@, i) && final(self)@ == old(self)@.subrange(
                    i + 1,
                    old(self)@.len() as int,
                ) && line_view(line) == decode_line(old(self)@.subrange(0, i)),
    {
        let mut i: usize = 0;
        while i < self.buf.len()
            invariant
                i <= self@.len(),
                self@ == old(self)@,
                forall|j: int| 0 <= j < i ==> self@[j] != LINE_FEED,
            ensures
                i <= self@.len(),
                self@ == old(self)@,
                forall|j: int| 0 <= j < i ==> self@[j] != LINE_FEED,
                i < self@.len() ==> self@[i as int] == LINE_FEED,
            decreases self@.len() - i,
        {
            if self.buf[i] == LINE_FEED {
                break;
            }
            i = i + 1;
        }
        if i == self.buf.len() {
            assert(!has_line_end(self@));
            return None;
        }
        let ghost whole = self@;
        let rest = self.buf.split_off(i + 1);
        let mut line = self.buf.split_off(0);
        self.buf = rest;
        line.pop();
        if line.len() > 0 && line[line.len() - 1] == CARRIAGE_RETURN {
            line.pop();
        }
        assert(line@ =~= strip_cr(whole.subrange(0, i as int)));
        assert(first_line_end(whole, i as int));
        assert(has_line_end(whole));
        let decoded = match string_from_utf8(line) {
            Some(s) => s,
            None => return Some(Err(ExtractionError::InvalidUtf8)),
        };
        if decoded.as_str().unicode_len() < 2 {
            return Some(Err(ExtractionError::TooSmall));
        }
        Some(Ok(decoded))
    }
}

impl LineFramer {
    /// Takes every complete line out of the buffer, in order, each decoded or
    /// refused as `next_line` does; the bytes after the last line feed stay.
    pub fn take_lines(&mut self) -> (r: Vec<Result<String, ExtractionError>>)
        ensures
            r@.map_values(|l: Result<String, ExtractionError>| line_view(l)) == split_lines(
                old(self)@,
            ).0.map_values(|b: Seq<u8>| decode_line(b)),
            final(self)@ == split_lines(old(self)@).1,
    {
        let mut lines: Vec<Result<String, ExtractionError>> = Vec::new();
        loop
            invariant
                split_lines(old(self)@).0.map_values(|b: Seq<u8>| decode_line(b)) == lines@.map_values(
                    |l: Result<String, ExtractionError>| line_view(l),
                ) + split_lines(self@).0.map_values(|b: Seq<u8>| decode_line(b)),
                split_lines(old(self)@).1 == split_lines(self@).1,
            decreases self@.len(),
        {
            let ghost before = self@;
            match self.next_line() {
                None => {
                    proof {
                        lemma_split_no_line_end(before);
                    }
                    assert(lines@.map_values(|l: Result<String, ExtractionError>| line_view(l))
                        + Seq::<Result<Seq<char>, ExtractionError>>::empty() =~= lines@.map_values(
                        |l: Result<String, ExtractionError>| line_view(l),
                    ));
                    return lines;
                },
                Some(line) => {
                    proof {
                        let i = choose|i: int|
                            first_line_end(before, i) && self@ == before.subrange(
                                i + 1,
                                before.len() as int,
                            ) && line_view(line) == decode_line(before.subrange(0, i));
                        let a = before.subrange(0, i + 1);
                        assert(a.drop_last() =~= before.subrange(0, i));
                        assert(!has_line_end(a.drop_last())) by {
                            if has_line_end(a.drop_last()) {
                                let j = choose|j: int|
                                    0 <= j < a.drop_last().len() && a.drop_last()[j] == LINE_FEED;
                                assert(before[j] == LINE_FEED);
                            }
                        }
                        assert(a + self@ =~= before);
                        lemma_split_after_line(a, self@);
                        let f = |b: Seq<u8>| decode_line(b);
                        assert((seq![a.drop_last()] + split_lines(self@).0).map_values(f) =~= seq![
                            decode_line(a.drop_last()),
                        ] + split_lines(self@).0.map_values(f));
                    }
                    let ghost old_lines = lines@;
                    lines.push(line);
                    assert(lines@.map_values(|l: Result<String, ExtractionError>| line_view(l))
                        =~= old_lines.map_values(|l: Result<String, ExtractionError>| line_view(l)).push(
                        line_view(line),
                    ));
                    assert(old_lines.map_values(|l: Result<String, ExtractionError>| line_view(l))
                        + (seq![line_view(line)] + split_lines(self@).0.map_values(
                        |b: Seq<u8>| decode_line(b),
                    )) =~= lines@.map_values(|l: Result<String, ExtractionError>| line_view(l))
                        + split_lines(self@).0.map_values(|b: Seq<u8>| decode_line(b)));
                },
            }
        }
    }
}

} // verus!
