//! The line-framing codec.
//!
//! Decoding splits an accumulating byte stream into protocol lines on `\n`,
//! tolerating an optional preceding `\r`; empty lines and lines that are
//! not valid UTF-8 are silently discarded. Encoding appends `\r\n` to one
//! line. The [`LineDecoder`] carries the proof that the lines it hands out
//! depend only on the bytes fed so far, not on how they were chunked.

use vstd::prelude::*;
use vstd::slice::{slice_index_get, slice_subrange, slice_to_vec};
use vstd::string::StrSliceExecFns;
use vstd::utf8::{
    decode_utf8, encode_scalar, encode_utf8, encode_utf8_decode_utf8, encode_utf8_valid_utf8,
    valid_utf8,
};

verus! {

/// The position of the first line feed at or after `i`, or the length of
/// the sequence when none remains.
pub open spec fn first_nl_from(b: Seq<u8>, i: int) -> int
    decreases b.len() - i when 0 <= i <= b.len()
{
    if i >= b.len() {
        i
    } else if b[i] == 10 {
        i
    } else {
        first_nl_from(b, i + 1)
    }
}

pub proof fn lemma_first_nl(b: Seq<u8>, i: int)
    requires
        0 <= i <= b.len(),
    ensures
        i <= first_nl_from(b, i) <= b.len(),
        first_nl_from(b, i) < b.len() ==> b[first_nl_from(b, i)] == 10,
        forall|j: int| i <= j < first_nl_from(b, i) ==> b[j] != 10,
    decreases b.len() - i,
{
    if i < b.len() && b[i] != 10 {
        lemma_first_nl(b, i + 1);
    }
}

/// Appending bytes does not move a line feed that is already buffered.
proof fn lemma_first_nl_prefix(b: Seq<u8>, x: Seq<u8>, i: int)
    requires
        0 <= i <= b.len(),
        first_nl_from(b, i) < b.len(),
    ensures
        first_nl_from(b + x, i) == first_nl_from(b, i),
    decreases b.len() - i,
{
    assert((b + x)[i] == b[i]) by {
    }
    if i < b.len() && b[i] != 10 {
        lemma_first_nl_prefix(b, x, i + 1);
    }
}

/// The content of the line that ends at the line feed at position `n`:
/// the bytes before it, with one immediately preceding carriage return
/// stripped as well.
pub open spec fn line_content(b: Seq<u8>, n: int) -> Seq<u8>
    recommends
        0 <= n <= b.len(),
{
    if n > 0 && b[n - 1] == 13 {
        b.subrange(0, n - 1)
    } else {
        b.subrange(0, n)
    }
}

/// Every complete line held in `b`, in order: the bytes before each line
/// feed, stripped of an immediately preceding carriage return, skipping
/// lines that are empty or not valid UTF-8. Bytes after the last line feed
/// await their terminator and yield nothing yet.
pub open spec fn decode_all(b: Seq<u8>) -> Seq<Seq<char>>
    decreases b.len(),
{
    let n = first_nl_from(b, 0);
    if 0 <= n < b.len() {
        let content = line_content(b, n);
        let tail = decode_all(b.subrange(n + 1, b.len() as int));
        if content.len() > 0 && valid_utf8(content) {
            seq![decode_utf8(content)] + tail
        } else {
            tail
        }
    } else {
        Seq::empty()
    }
}

/// Taking one complete line commutes with appending more bytes: the first
/// buffered line is already settled, whatever arrives later.
proof fn lemma_decode_step(b: Seq<u8>, x: Seq<u8>)
    requires
        first_nl_from(b, 0) < b.len(),
    ensures
        decode_all(b + x) == {
            let n = first_nl_from(b, 0);
            let content = line_content(b, n);
            let tail = decode_all(b.subrange(n + 1, b.len() as int) + x);
            if content.len() > 0 && valid_utf8(content) {
                seq![decode_utf8(content)] + tail
            } else {
                tail
            }
        },
{
    let n = first_nl_from(b, 0);
    lemma_first_nl(b, 0);
    lemma_first_nl_prefix(b, x, 0);
    assert(first_nl_from(b + x, 0) == n);
    assert(line_content(b + x, n) =~= line_content(b, n));
    assert((b + x).subrange(n + 1, (b + x).len() as int) =~= b.subrange(n + 1, b.len() as int)
        + x);
}

/// A buffer with no line feed yields no line.
proof fn lemma_decode_none(b: Seq<u8>)
    requires
        first_nl_from(b, 0) == b.len(),
    ensures
        decode_all(b) == Seq::<Seq<char>>::empty(),
{
}

/// Relies on core::str::from_utf8: it succeeds exactly on input that is
/// valid UTF-8, and the text it returns is the decoding of those bytes.
#[verifier::external_body]
fn bytes_to_string(b: &[u8]) -> (r: Option<String>)
    ensures
        r is Some <==> valid_utf8(b@),
        r matches Some(s) ==> s@ == decode_utf8(b@),
{
    match core::str::from_utf8(b) {
        Ok(s) => Some(s.to_string()),
        Err(_) => None,
    }
}

/// Splits an accumulating byte stream into protocol lines.
pub struct LineDecoder {
    buf: Vec<u8>,
    fed: Ghost<Seq<u8>>,
    emitted: Ghost<Seq<Seq<char>>>,
}

impl LineDecoder {
    /// Every byte ever fed to this decoder.
    pub closed spec fn fed(&self) -> Seq<u8> {
        self.fed@
    }

    /// Every line this decoder has handed out, in order.
    pub closed spec fn emitted(&self) -> Seq<Seq<char>> {
        self.emitted@
    }

    /// The bytes fed but not yet consumed.
    pub closed spec fn buffered(&self) -> Seq<u8> {
        self.buf@
    }

    /// The decoder's lines are chunking-insensitive: however the remaining
    /// bytes arrive, what was emitted plus what the grown buffer holds is
    /// exactly the lines of the whole stream.
    pub closed spec fn wf(&self) -> bool {
        forall|x: Seq<u8>|
            self.emitted@ + #[trigger] decode_all(self.buf@ + x) == decode_all(self.fed@ + x)
    }

    pub fn new() -> (d: LineDecoder)
        ensures
            d.wf(),
            d.fed() == Seq::<u8>::empty(),
            d.emitted() == Seq::<Seq<char>>::empty(),
            d.buffered() == Seq::<u8>::empty(),
    {
        let d = LineDecoder {
            buf: Vec::new(),
            fed: Ghost(Seq::empty()),
            emitted: Ghost(Seq::empty()),
        };
        proof {
            assert forall|x: Seq<u8>|
                d.emitted@ + #[trigger] decode_all(d.buf@ + x) == decode_all(d.fed@ + x) by {
                assert(d.emitted@ + decode_all(d.buf@ + x) =~= decode_all(d.fed@ + x));
            }
        }
        d
    }

    /// Appends newly received bytes to the buffer.
    pub fn feed(&mut self, data: &[u8])
        requires
            old(self).wf(),
        ensures
            final(self).wf(),
            final(self).fed() == old(self).fed() + data@,
            final(self).emitted() == old(self).emitted(),
            final(self).buffered() == old(self).buffered() + data@,
    {
        let ghost oldself = *self;
        let mut i: usize = 0;
        while i < data.len()
            invariant
                0 <= i <= data@.len(),
                self.buf@ == oldself.buf@ + data@.subrange(0, i as int),
                self.fed == oldself.fed,
                self.emitted == oldself.emitted,
            decreases data@.len() - i,
        {
            let b = *slice_index_get(data, i);
            self.buf.push(b);
            proof {
                assert(self.buf@ =~= oldself.buf@ + data@.subrange(0, i + 1));
            }
            i = i + 1;
        }
        proof {
            assert(self.buf@ =~= oldself.buf@ + data@);
        }
        self.fed = Ghost(self.fed@ + data@);
        proof {
            assert forall|x: Seq<u8>|
                self.emitted@ + #[trigger] decode_all(self.buf@ + x) == decode_all(
                    self.fed@ + x,
                ) by {
                assert(self.buf@ + x =~= oldself.buf@ + (data@ + x));
                assert(self.fed@ + x =~= oldself.fed@ + (data@ + x));
                assert(oldself.emitted@ + decode_all(oldself.buf@ + (data@ + x)) == decode_all(
                    oldself.fed@ + (data@ + x),
                ));
            }
        }
    }

    /// Extracts the next complete line, consuming it and any empty or
    /// undecodable lines before it. Returns nothing once no complete line
    /// remains buffered; in particular a buffer without a line feed yields
    /// nothing and is left untouched.
    pub fn next_line(&mut self) -> (r: Option<String>)
        requires
            old(self).wf(),
        ensures
            final(self).wf(),
            final(self).fed() == old(self).fed(),
            r matches Some(l) ==> final(self).emitted() == old(self).emitted().push(l@) && seq![
                l@,
            ] + decode_all(final(self).buffered()) == decode_all(old(self).buffered()),
            r is None ==> final(self).emitted() == old(self).emitted() && first_nl_from(
                final(self).buffered(),
                0,
            ) == final(self).buffered().len() && decode_all(final(self).buffered()) == decode_all(
                old(self).buffered(),
            ),
            first_nl_from(old(self).buffered(), 0) == old(self).buffered().len() ==> r is None
                && final(self).buffered() == old(self).buffered(),
    {
        loop
            invariant
                self.wf(),
                self.fed@ == old(self).fed@,
                self.emitted@ == old(self).emitted@,
                decode_all(self.buf@) == decode_all(old(self).buf@),
                first_nl_from(old(self).buf@, 0) == old(self).buf@.len() ==> self.buf@ == old(
                    self,
                ).buf@,
            decreases self.buf@.len(),
        {
            let ghost b = self.buf@;
            let n = match find_nl(&self.buf) {
                None => {
                    return None;
                },
                Some(n) => n,
            };
            proof {
                lemma_first_nl(b, 0);
                assert(n < self.buf.len());
            }
            let end = if n > 0 && self.buf[n - 1] == 13 {
                n - 1
            } else {
                n
            };
            let content = slice_to_vec(slice_subrange(self.buf.as_slice(), 0, end));
            let rest = slice_to_vec(slice_subrange(self.buf.as_slice(), n + 1, self.buf.len()));
            proof {
                assert(content@ == line_content(b, n as int));
            }
            self.buf = rest;
            let ghost prev = self.emitted@;
            let line = if content.len() > 0 {
                bytes_to_string(content.as_slice())
            } else {
                None
            };
            proof {
                assert forall|x: Seq<u8>|
                    (match line {
                        Some(l) => prev.push(l@),
                        None => prev,
                    }) + #[trigger] decode_all(self.buf@ + x) == decode_all(self.fed@ + x) by {
                    lemma_decode_step(b, x);
                    assert(prev + decode_all(b + x) == decode_all(self.fed@ + x));
                    let content_s = line_content(b, n as int);
                    if line is Some {
                        assert(content_s.len() > 0 && valid_utf8(content_s));
                        assert(prev.push(line->0@) + decode_all(self.buf@ + x) =~= prev + (seq![
                            decode_utf8(content_s),
                        ] + decode_all(self.buf@ + x)));
                    } else {
                        assert(!(content_s.len() > 0 && valid_utf8(content_s)));
                    }
                }
            }
            proof {
                lemma_decode_step(b, Seq::<u8>::empty());
                assert(b + Seq::<u8>::empty() =~= b);
                assert(self.buf@ + Seq::<u8>::empty() =~= self.buf@);
            }
            match line {
                Some(l) => {
                    self.emitted = Ghost(self.emitted@.push(l@));
                    proof {
                        assert(seq![l@] + decode_all(self.buf@) == decode_all(old(self).buf@));
                    }
                    return Some(l);
                },
                None => {
                },
            }
        }
    }
}

/// Once no complete line remains buffered, the decoder has emitted exactly
/// the lines of everything fed, however the bytes were chunked on arrival.
pub proof fn lemma_decoder_complete(d: &LineDecoder)
    requires
        d.wf(),
        first_nl_from(d.buffered(), 0) == d.buffered().len(),
    ensures
        d.emitted() == decode_all(d.fed()),
{
    assert(d.buffered() + Seq::<u8>::empty() =~= d.buffered());
    assert(d.fed() + Seq::<u8>::empty() =~= d.fed());
    lemma_decode_none(d.buffered());
    assert(d.emitted() + decode_all(d.buffered() + Seq::<u8>::empty()) == decode_all(
        d.fed() + Seq::<u8>::empty(),
    ));
    assert(d.emitted() =~= d.emitted() + Seq::<Seq<char>>::empty());
}

/// Finds the first line feed in the buffer.
fn find_nl(b: &Vec<u8>) -> (r: Option<usize>)
    ensures
        r matches Some(i) ==> first_nl_from(b@, 0) == i && i < b@.len(),
        r is None ==> first_nl_from(b@, 0) == b@.len(),
{
    let mut i: usize = 0;
    while i < b.len()
        invariant
            0 <= i <= b@.len(),
            first_nl_from(b@, 0) == first_nl_from(b@, i as int),
        decreases b@.len() - i,
    {
        if b[i] == 10 {
            return Some(i);
        }
        i = i + 1;
    }
    None
}

/// The bytes that carry one line on the wire: its UTF-8 encoding followed
/// by a carriage return and a line feed.
pub open spec fn encode_line_spec(line: Seq<char>) -> Seq<u8> {
    encode_utf8(line) + seq![13u8, 10u8]
}

/// Serializes one outgoing line by appending `\r\n`.
pub fn encode_line(line: &str) -> (r: Vec<u8>)
    ensures
        r@ == encode_line_spec(line@),
{
    let mut v = line.as_bytes_vec();
    v.push(13);
    v.push(10);
    proof {
        assert(v@ =~= encode_line_spec(line@));
    }
    v
}

/// The UTF-8 encoding of a text free of line feeds and carriage returns
/// contains neither byte 10 nor byte 13: a multi-byte character only uses
/// bytes of 128 and above, and a single-byte character is its own code.
proof fn lemma_encode_utf8_no_terminators(line: Seq<char>)
    requires
        forall|i: int| 0 <= i < line.len() ==> line[i] != '\n' && line[i] != '\r',
    ensures
        forall|j: int|
            0 <= j < encode_utf8(line).len() ==> encode_utf8(line)[j] != 10 && encode_utf8(
                line,
            )[j] != 13,
    decreases line.len(),
{
    if line.len() > 0 {
        let c = line[0];
        let s = c as u32;
        vstd::utf8::char_is_scalar(c);
        vstd::utf8::char_u32_cast(c, s);
        assert('\n' as u32 == 10 && '\r' as u32 == 13);
        assert(s != 10 && s != 13) by {
            if s == 10 {
                vstd::utf8::char_u32_cast('\n', 10);
            }
            if s == 13 {
                vstd::utf8::char_u32_cast('\r', 13);
            }
        }
        assert forall|k: int|
            0 <= k < encode_scalar(s).len() implies encode_scalar(s)[k] != 10 && encode_scalar(
            s,
        )[k] != 13 by {
            if vstd::utf8::has_width_1_encoding(s) {
                assert((s & 0x7F) as u8 != 10 && (s & 0x7F) as u8 != 13 ==> encode_scalar(s)[0]
                    != 10 && encode_scalar(s)[0] != 13);
                assert(s <= 0x7F && s != 10 && s != 13 ==> (s & 0x7F) as u8 != 10 && (s
                    & 0x7F) as u8 != 13) by (bit_vector);
            } else {
                assert((0xC0 | ((s >> 6) & 0x1F) as u8) >= 128) by (bit_vector);
                assert((0xE0 | ((s >> 12) & 0x0F) as u8) >= 128) by (bit_vector);
                assert((0xF0 | ((s >> 18) & 0x7) as u8) >= 128) by (bit_vector);
                assert((0x80 | (s & 0x3F) as u8) >= 128) by (bit_vector);
                assert((0x80 | ((s >> 6) & 0x3F) as u8) >= 128) by (bit_vector);
                assert((0x80 | ((s >> 12) & 0x3F) as u8) >= 128) by (bit_vector);
            }
        }
        lemma_encode_utf8_no_terminators(line.drop_first());
        assert forall|j: int|
            0 <= j < encode_utf8(line).len() implies encode_utf8(line)[j] != 10 && encode_utf8(
            line,
        )[j] != 13 by {
            let w = encode_scalar(s).len() as int;
            if j >= w {
                assert(encode_utf8(line)[j] == encode_utf8(line.drop_first())[j - w]);
            }
        }
    }
}

/// Round trip: a non-empty line holding no carriage return and no line
/// feed, encoded for the wire and then decoded from the byte stream, comes
/// back as exactly that one line.
pub proof fn lemma_encode_decode_round_trip(line: Seq<char>)
    requires
        line.len() > 0,
        forall|i: int| 0 <= i < line.len() ==> line[i] != '\n' && line[i] != '\r',
    ensures
        decode_all(encode_line_spec(line)) == seq![line],
{
    let e = encode_utf8(line);
    let b = encode_line_spec(line);
    lemma_encode_utf8_no_terminators(line);
    assert(e.len() > 0) by {
        vstd::utf8::char_is_scalar(line[0]);
    }
    let n = e.len() as int + 1;
    assert(b[n] == 10 && b[n - 1] == 13);
    assert(first_nl_from(b, 0) == n) by {
        lemma_first_nl(b, 0);
        assert(forall|j: int| 0 <= j < n ==> b[j] != 10);
        if first_nl_from(b, 0) > n {
            assert(b[n] != 10);
        }
    }
    let content = line_content(b, n);
    assert(content =~= e);
    encode_utf8_valid_utf8(line);
    encode_utf8_decode_utf8(line);
    let rest = b.subrange(n + 1, b.len() as int);
    assert(rest =~= Seq::<u8>::empty());
    assert(decode_all(rest) =~= Seq::<Seq<char>>::empty());
    assert(decode_all(b) =~= seq![line]);
}

} // verus!
