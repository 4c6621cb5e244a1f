use vstd::prelude::*;

use crate::machine::{
    buffers_lines, lemma_one_line as lemma_one_line_of, lemma_run_until_split, no_crlf, run_until,
};
use crate::text::{
    contains, contains_bytes, ends_with_crlf, find_from, first_from, matches_at, parse_decimal,
    parse_u32, starts_with,
};

verus! {

/// `FETCH`
pub open spec fn fetch_word() -> Seq<u8> {
    seq![70u8, 69u8, 84u8, 67u8, 72u8]
}

/// ` FETCH`, which ends the message number of a fetch response.
pub open spec fn fetch_suffix() -> Seq<u8> {
    seq![32u8, 70u8, 69u8, 84u8, 67u8, 72u8]
}

/// `* `, which starts an untagged response.
pub open spec fn untagged_prefix() -> Seq<u8> {
    seq![42u8, 32u8]
}

pub open spec fn open_brace() -> Seq<u8> {
    seq![123u8]
}

pub open spec fn close_brace() -> Seq<u8> {
    seq![125u8]
}

/// `OK`
pub open spec fn ok_word() -> Seq<u8> {
    seq![79u8, 75u8]
}

/// `BAD`
pub open spec fn bad_word() -> Seq<u8> {
    seq![66u8, 65u8, 68u8]
}

/// `NO`
pub open spec fn no_word() -> Seq<u8> {
    seq![78u8, 79u8]
}

/// `)`, which closes the data of a fetch response after its literal.
pub open spec fn close_paren() -> u8 {
    41u8
}

/// The tag of the fetch command.
pub open spec fn fetch_tag() -> Seq<u8> {
    seq![65u8, 48u8, 48u8, 51u8]
}

/// What the decoder is doing with the next byte.
#[derive(Clone, Copy, Debug, PartialEq, Eq, Structural)]
pub enum DecoderState {
    /// Collecting a status line up to its CR LF.
    ReadingLine,
    /// Copying the bytes of a literal; `remaining` of them are still to come.
    ReadingLiteral { remaining: u32 },
    /// Dropping bytes up to the `)` that closes the fetch data.
    SkippingToDelimiter,
}

/// What the decoder reports, as values.
pub enum Emitted {
    Message { id: u32, body: Seq<u8> },
    Completed { saved: u64 },
    Failed { line: Seq<u8> },
}

/// What the decoder reports when a byte completes something.
#[derive(Debug)]
pub enum DecodeEvent {
    /// A whole literal: the body of message `id`, to be saved.
    Message { id: u32, body: Vec<u8> },
    /// The tagged line of the command said `OK`; `saved` literals were delivered.
    Completed { saved: u64 },
    /// The tagged line of the command reported a failure; `line` is that line.
    Failed { line: Vec<u8> },
}

impl View for DecodeEvent {
    type V = Emitted;

    open spec fn view(&self) -> Emitted {
        match self {
            DecodeEvent::Message { id, body } => Emitted::Message { id: *id, body: body@ },
            DecodeEvent::Completed { saved } => Emitted::Completed { saved: *saved },
            DecodeEvent::Failed { line } => Emitted::Failed { line: line@ },
        }
    }
}

/// The decoder as values.
pub struct DecoderView {
    pub tag: Seq<u8>,
    pub state: DecoderState,
    pub line: Seq<u8>,
    pub id: u32,
    pub pending: Seq<u8>,
    pub saved: u64,
}

pub open spec fn opt_view(e: Option<DecodeEvent>) -> Option<Emitted> {
    match e {
        Some(x) => Some(x@),
        None => None,
    }
}

/// One more saved message, stopping at the largest count.
pub open spec fn count_one(n: u64) -> u64 {
    if n < u64::MAX {
        (n + 1) as u64
    } else {
        n
    }
}

/// The message number of a fetch response line: the digits between the leading
/// `* ` and the first ` FETCH`.
pub open spec fn announced_id(line: Seq<u8>) -> Option<u32> {
    if starts_with(line, untagged_prefix()) {
        match first_from(line, fetch_suffix(), 0) {
            Some(e) => if e >= 2 {
                parse_u32(line.subrange(2, e))
            } else {
                None
            },
            None => None,
        }
    } else {
        None
    }
}

/// The length of the literal that a line announces: the digits between its first
/// `{` and the next `}`.
pub open spec fn announced_length(line: Seq<u8>) -> Option<u32> {
    match first_from(line, open_brace(), 0) {
        Some(a) => match first_from(line, close_brace(), a + 1) {
            Some(b) => parse_u32(line.subrange(a + 1, b)),
            None => None,
        },
        None => None,
    }
}

/// A line that speaks of a fetch and holds a `{`: it announces a literal.
pub open spec fn is_announcement(line: Seq<u8>) -> bool {
    contains(line, fetch_word()) && contains(line, open_brace())
}

/// What a complete line (without its CR LF) does to the decoder.
///
/// A line that announces a literal but whose message number or length cannot be
/// read is skipped on purpose: the decoder stays in `ReadingLine`, keeps the
/// message number it had, and reports nothing. Failing the whole batch for one
/// unreadable announcement would lose the messages around it.
pub open spec fn on_line(d: DecoderView, line: Seq<u8>) -> (DecoderView, Option<Emitted>) {
    if is_announcement(line) {
        match (announced_id(line), announced_length(line)) {
            (Some(id), Some(n)) => if n == 0 {
                (
                    DecoderView {
                        state: DecoderState::SkippingToDelimiter,
                        id,
                        pending: Seq::empty(),
                        saved: count_one(d.saved),
                        ..d
                    },
                    Some(Emitted::Message { id, body: Seq::empty() }),
                )
            } else {
                (
                    DecoderView {
                        state: DecoderState::ReadingLiteral { remaining: n },
                        id,
                        pending: Seq::empty(),
                        ..d
                    },
                    None,
                )
            },
            _ => (d, None),
        }
    } else if starts_with(line, d.tag) {
        if contains(line, ok_word()) {
            (d, Some(Emitted::Completed { saved: d.saved }))
        } else if contains(line, bad_word()) || contains(line, no_word()) {
            (d, Some(Emitted::Failed { line }))
        } else {
            (d, None)
        }
    } else {
        (d, None)
    }
}

/// What one byte does to the decoder.
pub open spec fn step(d: DecoderView, b: u8) -> (DecoderView, Option<Emitted>) {
    match d.state {
        DecoderState::ReadingLiteral { remaining } => {
            let body = d.pending.push(b);
            if remaining <= 1 {
                (
                    DecoderView {
                        state: DecoderState::SkippingToDelimiter,
                        pending: Seq::empty(),
                        saved: count_one(d.saved),
                        ..d
                    },
                    Some(Emitted::Message { id: d.id, body }),
                )
            } else {
                (
                    DecoderView {
                        state: DecoderState::ReadingLiteral { remaining: (remaining - 1) as u32 },
                        pending: body,
                        ..d
                    },
                    None,
                )
            }
        },
        DecoderState::SkippingToDelimiter => {
            if b == close_paren() {
                (DecoderView { state: DecoderState::ReadingLine, ..d }, None)
            } else {
                (d, None)
            }
        },
        DecoderState::ReadingLine => {
            let buf = d.line.push(b);
            if ends_with_crlf(buf) {
                on_line(DecoderView { line: Seq::empty(), ..d }, buf.subrange(0, buf.len() - 2))
            } else {
                (DecoderView { line: buf, ..d }, None)
            }
        },
    }
}

/// The event ends the command.
pub open spec fn is_final(e: Emitted) -> bool {
    e is Completed || e is Failed
}

/// The events so far end with the one that ends the command.
pub open spec fn finished(es: Seq<Emitted>) -> bool {
    es.len() > 0 && is_final(es.last())
}

/// The decoder fed `bs` byte by byte, with the events it reports, up to and
/// including the one that ends the command; bytes after that are left alone.
pub open spec fn run(d: DecoderView, bs: Seq<u8>) -> (DecoderView, Seq<Emitted>) {
    run_until(decoder_step(), |e: Emitted| is_final(e), d, bs)
}

/// `step` as a value.
pub open spec fn decoder_step() -> spec_fn(DecoderView, u8) -> (DecoderView, Option<Emitted>) {
    |d: DecoderView, b: u8| step(d, b)
}

/// Events as values.
pub open spec fn views(es: Seq<DecodeEvent>) -> Seq<Emitted> {
    es.map_values(|e: DecodeEvent| e@)
}

/// Running the decoder over two pieces of input, one after the other, is running it
/// over the whole: how the input is cut into reads makes no difference.
pub proof fn lemma_run_split(d: DecoderView, a: Seq<u8>, b: Seq<u8>)
    ensures
        run(d, a + b) == ({
            let (d1, e1) = run(d, a);
            if finished(e1) {
                (d1, e1)
            } else {
                let (d2, e2) = run(d1, b);
                (d2, e1 + e2)
            }
        }),
{
    lemma_run_until_split(decoder_step(), |e: Emitted| is_final(e), d, a, b);
}

/// A literal is delivered byte for byte: whatever its bytes are (line ends and
/// parentheses included), a decoder that waits for `body.len()` literal bytes
/// reports exactly `body` as the message it was reading, and then skips to the
/// closing parenthesis.
pub proof fn lemma_literal_verbatim(d: DecoderView, body: Seq<u8>)
    requires
        1 <= body.len() <= u32::MAX,
        d.state == (DecoderState::ReadingLiteral { remaining: body.len() as u32 }),
        d.pending.len() == 0,
    ensures
        run(d, body) == (
            DecoderView {
                state: DecoderState::SkippingToDelimiter,
                pending: Seq::empty(),
                saved: count_one(d.saved),
                ..d
            },
            seq![Emitted::Message { id: d.id, body }],
        ),
{
    let n = body.len();
    assert forall|k: int| 0 <= k < n implies #[trigger] run(d, body.take(k)) == (
        DecoderView {
            state: DecoderState::ReadingLiteral { remaining: (n - k) as u32 },
            pending: body.take(k),
            ..d
        },
        Seq::<Emitted>::empty(),
    ) by {
        lemma_literal_prefix(d, body, k);
    }
    assert(body.take(n - 1) == body.drop_last());
    assert(run(d, body.take(n - 1)) == run(d, body.drop_last()));
    assert(body.take(n - 1).push(body.last()) =~= body);
}

proof fn lemma_literal_prefix(d: DecoderView, body: Seq<u8>, k: int)
    requires
        1 <= body.len() <= u32::MAX,
        d.state == (DecoderState::ReadingLiteral { remaining: body.len() as u32 }),
        d.pending.len() == 0,
        0 <= k < body.len(),
    ensures
        run(d, body.take(k)) == (
            DecoderView {
                state: DecoderState::ReadingLiteral { remaining: (body.len() - k) as u32 },
                pending: body.take(k),
                ..d
            },
            Seq::<Emitted>::empty(),
        ),
    decreases k,
{
    if k == 0 {
        assert(d.pending =~= body.take(0));
    } else {
        lemma_literal_prefix(d, body, k - 1);
        assert(body.take(k).drop_last() =~= body.take(k - 1));
        assert(body.take(k - 1).push(body[k - 1]) =~= body.take(k));
    }
}

/// One whole line, read in `ReadingLine`, does what `on_line` says.
proof fn lemma_one_line(d: DecoderView, line: Seq<u8>)
    requires
        d.state == DecoderState::ReadingLine,
        d.line.len() == 0,
        no_crlf(line),
    ensures
        run(d, line + seq![13u8, 10u8]) == ({
            let (d1, e) = on_line(d, line);
            (d1, match e {
                Some(x) => seq![x],
                None => Seq::<Emitted>::empty(),
            })
        }),
{
    let with_line = |p: Seq<u8>| DecoderView { line: p, ..d };
    assert(buffers_lines(decoder_step(), with_line));
    assert(d.line =~= Seq::<u8>::empty());
    assert(with_line(Seq::empty()) == d);
    lemma_one_line_of(decoder_step(), |e: Emitted| is_final(e), with_line, line);
    let n = line.len() as int;
    assert(line.push(13u8).push(10u8).subrange(0, n) =~= line);
}

/// A whole fetch answer round trip: a line announcing message `id` with a
/// literal of `body.len()` bytes, the body itself (whatever its bytes), the
/// closing parenthesis with its line end, and the tagged `OK` line make the
/// decoder report exactly that body for `id`, then completion with one message
/// saved.
pub proof fn lemma_round_trip(d: DecoderView, announce: Seq<u8>, body: Seq<u8>, done: Seq<u8>)
    requires
        d.state == DecoderState::ReadingLine,
        d.line.len() == 0,
        d.saved == 0,
        no_crlf(announce),
        is_announcement(announce),
        announced_length(announce) == Some(body.len() as u32),
        announced_id(announce) is Some,
        1 <= body.len() <= u32::MAX,
        no_crlf(done),
        !is_announcement(done),
        starts_with(done, d.tag),
        contains(done, ok_word()),
    ensures
        run(
            d,
            announce + seq![13u8, 10u8] + body + seq![41u8, 13u8, 10u8] + done + seq![13u8, 10u8],
        ).1 == seq![
            Emitted::Message { id: announced_id(announce)->0, body },
            Emitted::Completed { saved: 1 },
        ],
{
    let crlf = seq![13u8, 10u8];
    let id = announced_id(announce)->0;
    let p1 = announce + crlf;
    lemma_one_line(d, announce);
    let d1 = on_line(d, announce).0;
    assert(d1 == DecoderView {
        state: DecoderState::ReadingLiteral { remaining: body.len() as u32 },
        id,
        pending: Seq::empty(),
        ..d
    });
    lemma_literal_verbatim(d1, body);
    let d2 = run(d1, body).0;
    let m = Emitted::Message { id, body };
    lemma_run_split(d, p1, body);
    assert(Seq::<Emitted>::empty() + seq![m] =~= seq![m]);
    let close = seq![41u8];
    let d3 = DecoderView { state: DecoderState::ReadingLine, ..d2 };
    assert(run(d2, close) == (d3, Seq::<Emitted>::empty())) by {
        assert(close.drop_last() =~= Seq::<u8>::empty());
        assert(run(d2, Seq::<u8>::empty()) == (d2, Seq::<Emitted>::empty()));
    }
    lemma_run_split(d, p1 + body, close);
    assert(seq![m] + Seq::<Emitted>::empty() =~= seq![m]);
    assert(d3.line.len() == 0);
    lemma_one_line(d3, Seq::<u8>::empty());
    assert(Seq::<u8>::empty() + crlf =~= crlf);
    assert(!contains(Seq::<u8>::empty(), fetch_word()));
    assert(on_line(d3, Seq::<u8>::empty()).1 is None) by {
        if starts_with(Seq::<u8>::empty(), d3.tag) {
            assert(!contains(Seq::<u8>::empty(), ok_word()));
            assert(!contains(Seq::<u8>::empty(), bad_word()));
            assert(!contains(Seq::<u8>::empty(), no_word()));
        }
    }
    lemma_run_split(d, p1 + body + close, crlf);
    assert(p1 + body + close + crlf =~= p1 + body + seq![41u8, 13u8, 10u8]);
    lemma_one_line(d3, done);
    lemma_run_split(d, p1 + body + seq![41u8, 13u8, 10u8], done + crlf);
    assert(p1 + body + seq![41u8, 13u8, 10u8] + (done + crlf) =~= p1 + body + seq![41u8, 13u8, 10u8]
        + done + crlf);
    assert(seq![m] + seq![Emitted::Completed { saved: 1 }] =~= seq![
        m,
        Emitted::Completed { saved: 1 },
    ]);
}

/// Incremental decoder of the server's answer to a fetch command.
pub struct ResponseDecoder {
    tag: Vec<u8>,
    state: DecoderState,
    line: Vec<u8>,
    id: u32,
    pending: Vec<u8>,
    saved: u64,
}

impl View for ResponseDecoder {
    type V = DecoderView;

    closed spec fn view(&self) -> DecoderView {
        DecoderView {
            tag: self.tag@,
            state: self.state,
            line: self.line@,
            id: self.id,
            pending: self.pending@,
            saved: self.saved,
        }
    }
}

impl ResponseDecoder {
    /// A decoder that waits for the completion line tagged `tag`.
    pub fn with_tag(tag: Vec<u8>) -> (r: ResponseDecoder)
        ensures
            r@ == (DecoderView {
                tag: tag@,
                state: DecoderState::ReadingLine,
                line: Seq::empty(),
                id: 0,
                pending: Seq::empty(),
                saved: 0,
            }),
    {
        ResponseDecoder {
            tag,
            state: DecoderState::ReadingLine,
            line: Vec::new(),
            id: 0,
            pending: Vec::new(),
            saved: 0,
        }
    }

    /// A decoder for the answer to the fetch command, tagged `A003`.
    pub fn new() -> (r: ResponseDecoder)
        ensures
            r@ == (DecoderView {
                tag: fetch_tag(),
                state: DecoderState::ReadingLine,
                line: Seq::empty(),
                id: 0,
                pending: Seq::empty(),
                saved: 0,
            }),
    {
        // A003
        Self::with_tag(vec![65u8, 48u8, 48u8, 51u8])
    }

    pub fn state(&self) -> (r: DecoderState)
        ensures
            r == self@.state,
    {
        self.state
    }

    /// Number of literals delivered so far.
    pub fn saved(&self) -> (r: u64)
        ensures
            r == self@.saved,
    {
        self.saved
    }

    fn handle_line(&mut self, text: Vec<u8>) -> (r: Option<DecodeEvent>)
        ensures
            (final(self)@, opt_view(r)) == on_line(old(self)@, text@),
    {
        let line = text.as_slice();
        // FETCH
        let fetch: [u8; 5] = [70u8, 69u8, 84u8, 67u8, 72u8];
        let open: [u8; 1] = [123u8];
        assert(fetch@ == fetch_word() && open@ == open_brace());
        if contains_bytes(line, fetch.as_slice()) && contains_bytes(line, open.as_slice()) {
            let id = announced_message(line);
            let n = literal_length(line);
            match (id, n) {
                (Some(id), Some(n)) => {
                    self.id = id;
                    self.pending = Vec::new();
                    if n == 0 {
                        self.state = DecoderState::SkippingToDelimiter;
                        self.saved = if self.saved < u64::MAX { self.saved + 1 } else { self.saved };
                        return Some(DecodeEvent::Message { id, body: Vec::new() });
                    } else {
                        self.state = DecoderState::ReadingLiteral { remaining: n };
                        return None;
                    }
                },
                _ => {
                    return None;
                },
            }
        }
        if matches_at(line, self.tag.as_slice(), 0) {
            // OK, BAD, NO
            let ok: [u8; 2] = [79u8, 75u8];
            let bad: [u8; 3] = [66u8, 65u8, 68u8];
            let no: [u8; 2] = [78u8, 79u8];
            assert(ok@ == ok_word() && bad@ == bad_word());
            assert(no@ == no_word());
            if contains_bytes(line, ok.as_slice()) {
                return Some(DecodeEvent::Completed { saved: self.saved });
            }
            if contains_bytes(line, bad.as_slice()) || contains_bytes(line, no.as_slice()) {
                return Some(DecodeEvent::Failed { line: text });
            }
        }
        None
    }

    /// Feeds one byte of the server's answer.
    pub fn feed_byte(&mut self, b: u8) -> (r: Option<DecodeEvent>)
        ensures
            (final(self)@, opt_view(r)) == step(old(self)@, b),
    {
        match self.state {
            DecoderState::ReadingLiteral { remaining } => {
                self.pending.push(b);
                if remaining <= 1 {
                    let mut body: Vec<u8> = Vec::new();
                    core::mem::swap(&mut body, &mut self.pending);
                    self.state = DecoderState::SkippingToDelimiter;
                    self.saved = if self.saved < u64::MAX { self.saved + 1 } else { self.saved };
                    Some(DecodeEvent::Message { id: self.id, body })
                } else {
                    self.state = DecoderState::ReadingLiteral { remaining: remaining - 1 };
                    None
                }
            },
            DecoderState::SkippingToDelimiter => {
                if b == 41u8 {
                    self.state = DecoderState::ReadingLine;
                }
                None
            },
            DecoderState::ReadingLine => {
                self.line.push(b);
                let n = self.line.len();
                if n >= 2 && self.line[n - 2] == 13u8 && self.line[n - 1] == 10u8 {
                    let mut buf: Vec<u8> = Vec::new();
                    core::mem::swap(&mut buf, &mut self.line);
                    buf.truncate(n - 2);
                    self.handle_line(buf)
                } else {
                    None
                }
            },
        }
    }
}

impl ResponseDecoder {
    /// Feeds a chunk of the server's answer, as one read delivered it, and returns
    /// what it completed. Within the chunk, bytes after the event that ends the
    /// command are left alone; the caller stops feeding once it has seen that event.
    pub fn feed(&mut self, chunk: &[u8]) -> (events: Vec<DecodeEvent>)
        ensures
            (final(self)@, views(events@)) == run(old(self)@, chunk@),
    {
        let ghost start = self@;
        let mut events: Vec<DecodeEvent> = Vec::new();
        let mut done = false;
        let mut i: usize = 0;
        while i < chunk.len()
            invariant
                i <= chunk.len(),
                (self@, views(events@)) == run(start, chunk@.take(i as int)),
                done == finished(views(events@)),
            decreases chunk.len() - i,
        {
            proof {
                assert(chunk@.take(i + 1).drop_last() =~= chunk@.take(i as int));
            }
            if !done {
                match self.feed_byte(chunk[i]) {
                    Some(e) => {
                        done = match e {
                            DecodeEvent::Message { .. } => false,
                            _ => true,
                        };
                        proof {
                            assert(views(events@.push(e)) =~= views(events@).push(e@));
                        }
                        events.push(e);
                    },
                    None => {},
                }
            }
            i = i + 1;
        }
        assert(chunk@.take(chunk.len() as int) =~= chunk@);
        events
    }
}

/// Reads the message number of a fetch response line.
pub fn announced_message(line: &[u8]) -> (r: Option<u32>)
    ensures
        r == announced_id(line@),
{
    // "* " and " FETCH"
    let star: [u8; 2] = [42u8, 32u8];
    let suffix: [u8; 6] = [32u8, 70u8, 69u8, 84u8, 67u8, 72u8];
    assert(star@ == untagged_prefix() && suffix@ == fetch_suffix());
    if !matches_at(line, star.as_slice(), 0) {
        return None;
    }
    match find_from(line, suffix.as_slice(), 0) {
        Some(e) => {
            if e >= 2 {
                parse_decimal(slice_range(line, 2, e))
            } else {
                None
            }
        },
        None => None,
    }
}

/// Reads the length of the literal that a line announces.
pub fn literal_length(line: &[u8]) -> (r: Option<u32>)
    ensures
        r == announced_length(line@),
{
    let open: [u8; 1] = [123u8];
    let close: [u8; 1] = [125u8];
    let open_s = open.as_slice();
    let close_s = close.as_slice();
    assert(open_s@ == open_brace() && close_s@ == close_brace());
    let line_len = line.len();
    match find_from(line, open_s, 0) {
        Some(a) => match find_from(line, close_s, {
            assert(a < line_len);
            a + 1
        }) {
            Some(b) => parse_decimal(slice_range(line, a + 1, b)),
            None => None,
        },
        None => None,
    }
}

fn slice_range(s: &[u8], lo: usize, hi: usize) -> (r: &[u8])
    requires
        lo <= hi <= s@.len(),
    ensures
        r@ == s@.subrange(lo as int, hi as int),
{
    let (left, _) = s.split_at(hi);
    let (_, mid) = left.split_at(lo);
    mid
}

} // verus!
