//! The stream decoder: from the bytes of a response body, as they arrive, to
//! the fragments of the reply.
//!
//! The body is a run of records, each ended by a newline. The decoder keeps the
//! bytes that follow the last newline and joins them with the next chunk, so
//! where a chunk ends makes no difference to what comes out. The record
//! `data: [DONE]` ends the stream: nothing after it is read.

use vstd::prelude::*;
use vstd::seq_lib::*;
use vstd::string::*;
use crate::frame::{decode_record, record_frame, Frame, FrameView};
use crate::lines::{closed_lines, lemma_lines_concat, lemma_sep_free_is_open, open_line};

verus! {

/// The byte that ends a record.
pub const NEWLINE: u8 = 0x0A;

/// The records of `stream` that a newline has ended, in order.
pub open spec fn records(stream: Seq<u8>) -> Seq<Seq<u8>> {
    closed_lines(stream, NEWLINE)
}

/// The bytes of `stream` that follow its last newline: a record still open.
pub open spec fn remainder(stream: Seq<u8>) -> Seq<u8> {
    open_line(stream, NEWLINE)
}

/// All the lines of `stream`: its ended records and the open one after them.
pub open spec fn lines(stream: Seq<u8>) -> Seq<Seq<u8>> {
    records(stream).push(remainder(stream))
}

/// Whether one of `records` is the end marker.
pub open spec fn ended(records: Seq<Seq<u8>>) -> bool {
    exists|i: int| 0 <= i < records.len() && is_end(#[trigger] records[i])
}

/// Whether `record` is the end marker.
pub open spec fn is_end(record: Seq<u8>) -> bool {
    record_frame(record) == Some(FrameView::Done)
}

/// The fragments that `records` carry, in order, up to the end marker.
pub open spec fn fragments(records: Seq<Seq<u8>>) -> Seq<Seq<char>>
    decreases records.len(),
{
    if records.len() == 0 {
        Seq::empty()
    } else if ended(records.drop_last()) {
        fragments(records.drop_last())
    } else {
        match record_frame(records.last()) {
            Some(FrameView::Content(s)) => fragments(records.drop_last()).push(s),
            _ => fragments(records.drop_last()),
        }
    }
}

/// The fragments of a whole response body.
pub open spec fn stream_fragments(stream: Seq<u8>) -> Seq<Seq<char>> {
    fragments(lines(stream))
}

/// The reply that a whole response body carries: its fragments joined.
pub open spec fn stream_content(stream: Seq<u8>) -> Seq<char> {
    stream_fragments(stream).flatten()
}

/// The characters of each string of `v`.
pub open spec fn texts(v: Seq<String>) -> Seq<Seq<char>> {
    Seq::new(v.len(), |i: int| v[i]@)
}

/// What a decoder holds between two chunks.
pub struct DecoderState {
    /// The bytes of the record still open.
    pub pending: Seq<u8>,
    /// Whether the end marker was read.
    pub done: bool,
}

/// The state of a decoder that has read nothing.
pub open spec fn initial() -> DecoderState {
    DecoderState { pending: Seq::empty(), done: false }
}

/// The state after `chunk`, and the fragments that `chunk` completes.
pub open spec fn feed_spec(state: DecoderState, chunk: Seq<u8>) -> (DecoderState, Seq<Seq<char>>) {
    if state.done {
        (state, Seq::empty())
    } else {
        let data = state.pending + chunk;
        let done = ended(records(data));
        let pending = if done {
            Seq::empty()
        } else {
            remainder(data)
        };
        (DecoderState { pending, done }, fragments(records(data)))
    }
}

/// The state after the end of input, and the fragment of the record that was
/// still open, if it carries one.
pub open spec fn finish_spec(state: DecoderState) -> (DecoderState, Seq<Seq<char>>) {
    if state.done {
        (state, Seq::empty())
    } else {
        (DecoderState { pending: Seq::empty(), done: true }, fragments(seq![state.pending]))
    }
}

/// The state after a run of chunks, and the fragments that came out on the way.
pub open spec fn run(state: DecoderState, chunks: Seq<Seq<u8>>) -> (DecoderState, Seq<Seq<char>>)
    decreases chunks.len(),
{
    if chunks.len() == 0 {
        (state, Seq::empty())
    } else {
        let (mid, head) = run(state, chunks.drop_last());
        let (end, tail) = feed_spec(mid, chunks.last());
        (end, head + tail)
    }
}

/// All the fragments that a fresh decoder gives for `chunks` followed by the
/// end of input.
pub open spec fn decode_chunks(chunks: Seq<Seq<u8>>) -> Seq<Seq<char>> {
    let (state, head) = run(initial(), chunks);
    head + finish_spec(state).1
}

/// Two runs of records read one after the other have ended the stream where
/// one of them has.
pub proof fn lemma_ended_concat(x: Seq<Seq<u8>>, y: Seq<Seq<u8>>)
    ensures
        ended(x + y) == (ended(x) || ended(y)),
{
    if ended(x) {
        let i = choose|i: int| 0 <= i < x.len() && is_end(#[trigger] x[i]);
        assert((x + y)[i] == x[i]);
    }
    if ended(y) {
        let i = choose|i: int| 0 <= i < y.len() && is_end(#[trigger] y[i]);
        assert((x + y)[x.len() + i] == y[i]);
    }
    if ended(x + y) {
        let i = choose|i: int| 0 <= i < (x + y).len() && is_end(#[trigger] (x + y)[i]);
        if i < x.len() {
            assert((x + y)[i] == x[i]);
        } else {
            assert((x + y)[i] == y[i - x.len()]);
        }
    }
}

/// The fragments of two runs of records read one after the other: those of the
/// first, and those of the second unless the first has ended the stream.
pub proof fn lemma_fragments_concat(x: Seq<Seq<u8>>, y: Seq<Seq<u8>>)
    ensures
        fragments(x + y) == if ended(x) {
            fragments(x)
        } else {
            fragments(x) + fragments(y)
        },
    decreases y.len(),
{
    if y.len() == 0 {
        assert(x + y == x);
        assert(fragments(x) + Seq::<Seq<char>>::empty() == fragments(x));
    } else {
        let y0 = y.drop_last();
        lemma_fragments_concat(x, y0);
        lemma_ended_concat(x, y0);
        assert((x + y).drop_last() == x + y0);
        assert((x + y).last() == y.last());
        if !ended(x) && !ended(y0) {
            match record_frame(y.last()) {
                Some(FrameView::Content(s)) => {
                    assert((fragments(x) + fragments(y0)).push(s) == fragments(x) + fragments(
                        y0,
                    ).push(s));
                },
                _ => {},
            }
        }
    }
}

/// Feeding two chunks one after the other is feeding them joined.
pub proof fn lemma_feed_concat(state: DecoderState, a: Seq<u8>, b: Seq<u8>)
    ensures
        feed_spec(state, a + b) == (
            feed_spec(feed_spec(state, a).0, b).0,
            feed_spec(state, a).1 + feed_spec(feed_spec(state, a).0, b).1,
        ),
{
    let (mid, head) = feed_spec(state, a);
    let (end, tail) = feed_spec(mid, b);
    if state.done {
        assert(head + tail == Seq::<Seq<char>>::empty());
    } else {
        let first = state.pending + a;
        let whole = state.pending + (a + b);
        assert(whole == first + b);
        lemma_lines_concat(first, b, NEWLINE);
        let second = remainder(first) + b;
        lemma_ended_concat(records(first), records(second));
        lemma_fragments_concat(records(first), records(second));
        if ended(records(first)) {
            assert(head + tail == head);
        }
    }
}

/// A run of chunks leaves a fresh decoder where their concatenation, fed at
/// once, leaves it, with the same fragments.
pub proof fn lemma_run_is_feed(chunks: Seq<Seq<u8>>)
    ensures
        run(initial(), chunks) == feed_spec(initial(), chunks.flatten()),
    decreases chunks.len(),
{
    if chunks.len() == 0 {
        let empty = Seq::<u8>::empty();
        assert(initial().pending + chunks.flatten() == empty);
        assert(!ended(records(empty)));
    } else {
        let before = chunks.drop_last();
        lemma_run_is_feed(before);
        assert(before.push(chunks.last()) == chunks);
        before.lemma_flatten_push(chunks.last());
        lemma_feed_concat(initial(), before.flatten(), chunks.last());
    }
}

/// What comes out of a decoder depends on the bytes alone, not on how they
/// were cut into chunks: every run of chunks gives the fragments of the whole
/// stream.
pub proof fn lemma_decode_chunks(chunks: Seq<Seq<u8>>)
    ensures
        decode_chunks(chunks) == stream_fragments(chunks.flatten()),
{
    let stream = chunks.flatten();
    lemma_run_is_feed(chunks);
    assert(initial().pending + stream == stream);
    let rs = records(stream);
    assert(lines(stream) == rs + seq![remainder(stream)]);
    lemma_fragments_concat(rs, seq![remainder(stream)]);
    if ended(rs) {
        assert(fragments(rs) + Seq::<Seq<char>>::empty() == fragments(rs));
    }
}

/// Two ways of cutting the same stream into chunks give the same fragments and
/// the same reply.
pub proof fn lemma_chunking_invariance(first: Seq<Seq<u8>>, second: Seq<Seq<u8>>)
    requires
        first.flatten() == second.flatten(),
    ensures
        decode_chunks(first) == decode_chunks(second),
        decode_chunks(first).flatten() == stream_content(first.flatten()),
{
    lemma_decode_chunks(first);
    lemma_decode_chunks(second);
}

/// What a single record yields.
pub proof fn lemma_fragments_one(record: Seq<u8>)
    ensures
        ended(seq![record]) == is_end(record),
        fragments(seq![record]) == match record_frame(record) {
            Some(FrameView::Content(s)) => seq![s],
            _ => Seq::<Seq<char>>::empty(),
        },
{
    let one = seq![record];
    let none = Seq::<Seq<u8>>::empty();
    assert(one.drop_last() == none);
    assert(one.last() == record);
    assert(!ended(none));
    assert(fragments(none) == Seq::<Seq<char>>::empty());
    if is_end(record) {
        assert(is_end(one[0]));
    }
    if ended(one) {
        let k = choose|k: int| 0 <= k < one.len() && is_end(#[trigger] one[k]);
        assert(one[k] == record);
    }
    match record_frame(record) {
        Some(FrameView::Content(s)) => {
            assert(Seq::<Seq<char>>::empty().push(s) == seq![s]);
        },
        _ => {},
    }
}

/// Records are read in order and reading stops at the end marker: a run of
/// records yields what its first record carries, followed by what the rest
/// yields, unless the first record is the end marker.
pub proof fn lemma_fragments_in_order(first: Seq<u8>, rest: Seq<Seq<u8>>)
    ensures
        fragments(seq![first] + rest) == match record_frame(first) {
            Some(FrameView::Done) => Seq::<Seq<char>>::empty(),
            Some(FrameView::Content(s)) => seq![s] + fragments(rest),
            _ => fragments(rest),
        },
{
    lemma_fragments_one(first);
    lemma_fragments_concat(seq![first], rest);
    assert(Seq::<Seq<char>>::empty() + fragments(rest) == fragments(rest));
}

/// What one more byte does to a decoder that has not ended: a newline closes
/// the open record, any other byte joins it.
pub proof fn lemma_feed_byte(pending: Seq<u8>, byte: u8)
    requires
        forall|i: int| 0 <= i < pending.len() ==> pending[i] != NEWLINE,
    ensures
        feed_spec(DecoderState { pending, done: false }, seq![byte]) == if byte == NEWLINE {
            (
                DecoderState { pending: Seq::empty(), done: is_end(pending) },
                fragments(seq![pending]),
            )
        } else {
            (DecoderState { pending: pending.push(byte), done: false }, Seq::<Seq<char>>::empty())
        },
{
    let data = pending + seq![byte];
    let none = Seq::<Seq<u8>>::empty();
    lemma_sep_free_is_open(pending, NEWLINE);
    lemma_fragments_one(pending);
    assert(data.drop_last() == pending);
    assert(data.last() == byte);
    assert(!ended(none));
    assert(fragments(none) == Seq::<Seq<char>>::empty());
    if byte == NEWLINE {
        assert(none.push(pending) == seq![pending]);
    }
}

/// A record that carries no content fragment and is not the end marker can be
/// taken out of a run of records without changing what the run yields.
pub proof fn lemma_silent_record(before: Seq<Seq<u8>>, record: Seq<u8>, after: Seq<Seq<u8>>)
    requires
        !is_end(record),
        !(record_frame(record) is Some && record_frame(record)->0 is Content),
    ensures
        fragments(before + seq![record] + after) == fragments(before + after),
        ended(before + seq![record] + after) == ended(before + after),
{
    let one = seq![record];
    lemma_fragments_one(record);
    lemma_fragments_concat(before, one);
    lemma_ended_concat(before, one);
    lemma_fragments_concat(before + one, after);
    lemma_ended_concat(before + one, after);
    lemma_fragments_concat(before, after);
    lemma_ended_concat(before, after);
    assert(fragments(before) + Seq::<Seq<char>>::empty() == fragments(before));
}

/// A whole record that carries nothing, put between two parts of a stream of
/// which the first ends at a record's end, changes neither the fragments nor
/// the reply.
pub proof fn lemma_malformed_record_is_skipped(head: Seq<u8>, record: Seq<u8>, tail: Seq<u8>)
    requires
        head.len() == 0 || head.last() == NEWLINE,
        forall|i: int| 0 <= i < record.len() ==> record[i] != NEWLINE,
        !is_end(record),
        !(record_frame(record) is Some && record_frame(record)->0 is Content),
    ensures
        stream_fragments(head + record + seq![NEWLINE] + tail) == stream_fragments(head + tail),
        stream_content(head + record + seq![NEWLINE] + tail) == stream_content(head + tail),
{
    let line = record + seq![NEWLINE];
    assert(remainder(head) == Seq::<u8>::empty());
    lemma_sep_free_is_open(record, NEWLINE);
    assert(line.drop_last() == record);
    assert(records(line) == seq![record]) by {
        assert(Seq::<Seq<u8>>::empty().push(record) == seq![record]);
    }
    assert(remainder(line) == Seq::<u8>::empty());
    // the stream with the record
    assert(head + record + seq![NEWLINE] + tail == head + (line + tail));
    lemma_lines_concat(head, line + tail, NEWLINE);
    assert(remainder(head) + (line + tail) == line + tail);
    lemma_lines_concat(line, tail, NEWLINE);
    assert(remainder(line) + tail == tail);
    // the stream without it
    lemma_lines_concat(head, tail, NEWLINE);
    assert(remainder(head) + tail == tail);
    let with = lines(head + record + seq![NEWLINE] + tail);
    let without = lines(head + tail);
    assert(with == records(head) + seq![record] + lines(tail));
    assert(without == records(head) + lines(tail));
    lemma_silent_record(records(head), record, lines(tail));
}

/// Decoder of one streamed response body.
pub struct StreamDecoder {
    pending: Vec<u8>,
    done: bool,
}

impl View for StreamDecoder {
    type V = DecoderState;

    closed spec fn view(&self) -> DecoderState {
        DecoderState { pending: self.pending@, done: self.done }
    }
}

impl StreamDecoder {
    /// The record kept between two chunks is an open one: it holds no newline.
    #[verifier::type_invariant]
    spec fn holds_open_record(self) -> bool {
        forall|i: int| 0 <= i < self.pending@.len() ==> self.pending@[i] != NEWLINE
    }

    /// A decoder that has read nothing.
    pub fn new() -> (decoder: StreamDecoder)
        ensures
            decoder@ == initial(),
    {
        StreamDecoder { pending: Vec::new(), done: false }
    }

    /// Whether the end marker was read, or the input has ended.
    pub fn is_done(&self) -> (done: bool)
        ensures
            done == self@.done,
    {
        self.done
    }

    /// Reads the next chunk of the body and returns the fragments of the
    /// records that it completes, in order. After the end marker nothing is
    /// read any more.
    pub fn feed(&mut self, chunk: &[u8]) -> (out: Vec<String>)
        ensures
            (final(self)@, texts(out@)) == feed_spec(old(self)@, chunk@),
    {
        let mut out: Vec<String> = Vec::new();
        assert(texts(out@) == Seq::<Seq<char>>::empty());
        if self.done {
            return out;
        }
        let mut line: Vec<u8> = Vec::new();
        proof {
            use_type_invariant(&*self);
            lemma_sep_free_is_open(self.pending@, NEWLINE);
            assert(self.pending@ + chunk@.take(0) == self.pending@);
            assert(!ended(records(self.pending@)));
        }
        core::mem::swap(&mut self.pending, &mut line);
        let mut i: usize = 0;
        while i < chunk.len()
            invariant
                i <= chunk.len(),
                !self.done,
                self.pending@.len() == 0,
                forall|k: int| 0 <= k < line@.len() ==> line@[k] != NEWLINE,
                feed_spec(old(self)@, chunk@.take(i as int)) == (
                    DecoderState { pending: line@, done: false },
                    texts(out@),
                ),
            decreases chunk.len() - i,
        {
            let byte: u8 = chunk[i];
            let ghost seen = chunk@.take(i as int);
            let ghost next = chunk@.take(i + 1);
            let ghost head = texts(out@);
            proof {
                assert(next == seen + seq![byte]);
                lemma_feed_concat(old(self)@, seen, seq![byte]);
                lemma_feed_byte(line@, byte);
                lemma_fragments_one(line@);
                assert(head + Seq::<Seq<char>>::empty() == head);
            }
            if byte == NEWLINE {
                let frame = decode_record(line.as_slice());
                line.clear();
                match frame {
                    Some(Frame::Done) => {
                        self.done = true;
                        proof {
                            let rest = chunk@.skip(i + 1);
                            assert(chunk@ == next + rest);
                            lemma_feed_concat(old(self)@, next, rest);
                            assert(self.pending@ == Seq::<u8>::empty());
                        }
                        return out;
                    },
                    Some(Frame::Content(s)) => {
                        proof {
                            assert(texts(out@.push(s)) == head + seq![s@]);
                        }
                        out.push(s);
                    },
                    _ => {},
                }
            } else {
                line.push(byte);
            }
            i += 1;
        }
        assert(chunk@.take(chunk@.len() as int) == chunk@);
        self.pending = line;
        out
    }

    /// Ends the input: the record that was still open, if any, is read as the
    /// last one, and its fragment returned. Nothing is read afterwards.
    pub fn finish(&mut self) -> (out: Vec<String>)
        ensures
            (final(self)@, texts(out@)) == finish_spec(old(self)@),
    {
        let mut out: Vec<String> = Vec::new();
        assert(texts(out@) == Seq::<Seq<char>>::empty());
        if self.done {
            return out;
        }
        let frame = decode_record(self.pending.as_slice());
        proof {
            lemma_fragments_one(self.pending@);
        }
        match frame {
            Some(Frame::Content(s)) => {
                proof {
                    assert(texts(out@.push(s)) == seq![s@]);
                }
                out.push(s);
            },
            _ => {},
        }
        self.pending = Vec::new();
        self.done = true;
        out
    }
}

/// Decodes a whole response body at once.
pub fn decode_stream(stream: &[u8]) -> (out: Vec<String>)
    ensures
        texts(out@) == stream_fragments(stream@),
{
    let mut decoder = StreamDecoder::new();
    let mut out = decoder.feed(stream);
    let ghost head = texts(out@);
    let mut last = decoder.finish();
    proof {
        let chunks = seq![stream@];
        assert(chunks.drop_last() == Seq::<Seq<u8>>::empty());
        assert(chunks.last() == stream@);
        assert(run(initial(), chunks.drop_last()) == (initial(), Seq::<Seq<char>>::empty()));
        assert(Seq::<Seq<char>>::empty() + head == head);
        chunks.lemma_flatten_singleton();
        lemma_decode_chunks(chunks);
        assert(texts(out@ + last@) == texts(out@) + texts(last@));
    }
    out.append(&mut last);
    out
}

} // verus!
