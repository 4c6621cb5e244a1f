use vstd::prelude::*;
use vstd::utf8::{decode_utf8, encode_utf8, valid_utf8};

use crate::decoder::{
    fetch_tag, step, DecodeEvent, DecoderState, DecoderView, Emitted, ResponseDecoder,
};
use crate::error_imap::ClientError;
use crate::ranges::FetchRange;
use crate::session::{
    exists_count, fetch_bytes, fetch_command, login_bytes, login_command, login_reply,
    login_verdict, ok_marker, select_bytes, select_command, select_tag, LineReader, SelectScan,
    auth_failure_text, select_failure_text,
};
use crate::machine::{
    buffers_lines, lemma_one_line as lemma_one_line_of, lemma_run_until_split, no_crlf, run_until,
};
use crate::text::{contains, ends_with_crlf, starts_with};

verus! {

/// The text that `bytes` read as UTF-8 give, with each invalid sequence replaced
/// by U+FFFD.
pub uninterp spec fn utf8_lossy(bytes: Seq<u8>) -> Seq<char>;

/// The text of a line the server sent: the characters it encodes when it is
/// valid UTF-8, its lossy decoding otherwise.
pub open spec fn line_text(bytes: Seq<u8>) -> Seq<char> {
    if valid_utf8(bytes) {
        decode_utf8(bytes)
    } else {
        utf8_lossy(bytes)
    }
}

/// Relies on `String::from_utf8_lossy`: decodes UTF-8, replacing invalid
/// sequences; valid UTF-8 comes back as the text it encodes.
#[verifier::external_body]
fn lossy_text(bytes: &[u8]) -> (r: String)
    ensures
        r@ == utf8_lossy(bytes@),
        valid_utf8(bytes@) ==> r@ == decode_utf8(bytes@),
{
    String::from_utf8_lossy(bytes).into_owned()
}

/// Where one connection's exchange stands.
#[derive(Clone, Copy, Debug, PartialEq, Eq, Structural)]
pub enum Phase {
    /// Waiting for the server's greeting line.
    Greeting,
    /// The login command was sent; waiting for its tagged answer.
    LoggingIn,
    /// The select command was sent; waiting for its tagged answer.
    Selecting,
    /// The fetch command was sent; decoding the messages it returns.
    Fetching,
    /// The exchange has ended; further input is ignored.
    Done,
}

/// What the connection is opened for.
#[derive(Clone, Copy, Debug, PartialEq, Eq, Structural)]
pub enum Purpose {
    /// Learn how many messages the inbox holds.
    Count,
    /// Fetch the messages of a range and have them saved.
    Fetch(FetchRange),
}

/// What the caller must do next on the connection.
#[derive(Debug)]
pub enum SessionAction {
    /// Write these bytes to the server and flush.
    Send(Vec<u8>),
    /// Save the body of message `id`.
    Save { id: u32, body: Vec<u8> },
    /// The exchange is over: on success, log out and report the number (the
    /// message count, or the number of saved messages); on failure, report it.
    Finish(Result<u64, ClientError>),
}

/// A session action as values; a failure is given by its kind and message.
pub enum Act {
    Send(Seq<u8>),
    Save(u32, Seq<u8>),
    Succeed(u64),
    /// `AuthenticationError`: the server rejected the login.
    Reject(Seq<char>),
    /// `ImapError`: the server refused the select or the fetch.
    Refuse(Seq<char>),
    /// `ConnectionError`: the connection ended before the exchange did.
    Closed(Seq<char>),
    /// Any other error.
    Fail,
}

impl View for SessionAction {
    type V = Act;

    open spec fn view(&self) -> Act {
        match self {
            SessionAction::Send(bytes) => Act::Send(bytes@),
            SessionAction::Save { id, body } => Act::Save(*id, body@),
            SessionAction::Finish(Ok(n)) => Act::Succeed(*n),
            SessionAction::Finish(Err(ClientError::AuthenticationError(m))) => Act::Reject(m@),
            SessionAction::Finish(Err(ClientError::ImapError(m))) => Act::Refuse(m@),
            SessionAction::Finish(Err(ClientError::ConnectionError(m))) => Act::Closed(m@),
            SessionAction::Finish(Err(_)) => Act::Fail,
        }
    }
}

pub open spec fn act_view(a: Option<SessionAction>) -> Option<Act> {
    match a {
        Some(x) => Some(x@),
        None => None,
    }
}

/// A session as values.
pub struct SessionView {
    pub purpose: Purpose,
    pub phase: Phase,
    /// The login and secret, as the bytes sent.
    pub user: Seq<u8>,
    pub secret: Seq<u8>,
    /// The line being read, in the phases that read lines.
    pub line: Seq<u8>,
    /// The last message count the select answer announced.
    pub count: u32,
    pub decoder: DecoderView,
}

/// What a complete line (without its CR LF) does in the phases that read lines.
pub open spec fn session_line(s: SessionView, line: Seq<u8>) -> (SessionView, Option<Act>) {
    match s.phase {
        Phase::Greeting => (
            SessionView { phase: Phase::LoggingIn, ..s },
            Some(Act::Send(login_bytes(s.user, s.secret))),
        ),
        Phase::LoggingIn => match login_verdict(line) {
            None => (s, None),
            Some(true) => (SessionView { phase: Phase::Selecting, ..s }, Some(Act::Send(select_bytes()))),
            Some(false) => (
                SessionView { phase: Phase::Done, ..s },
                Some(Act::Reject(auth_failure_text())),
            ),
        },
        Phase::Selecting => {
            let count = match exists_count(line) {
                Some(c) => c,
                None => s.count,
            };
            let s1 = SessionView { count, ..s };
            if !starts_with(line, select_tag()) {
                (s1, None)
            } else if contains(line, ok_marker()) {
                match s.purpose {
                    Purpose::Count => (
                        SessionView { phase: Phase::Done, ..s1 },
                        Some(Act::Succeed(count as u64)),
                    ),
                    Purpose::Fetch(r) => (
                        SessionView { phase: Phase::Fetching, ..s1 },
                        Some(Act::Send(fetch_bytes(r))),
                    ),
                }
            } else {
                (SessionView { phase: Phase::Done, ..s1 }, Some(Act::Refuse(select_failure_text())))
            }
        },
        _ => (s, None),
    }
}

/// What one byte from the server does to the session.
pub open spec fn session_step(s: SessionView, b: u8) -> (SessionView, Option<Act>) {
    match s.phase {
        Phase::Done => (s, None),
        Phase::Fetching => {
            let (d, e) = step(s.decoder, b);
            let s1 = SessionView { decoder: d, ..s };
            match e {
                None => (s1, None),
                Some(Emitted::Message { id, body }) => (s1, Some(Act::Save(id, body))),
                Some(Emitted::Completed { saved }) => (
                    SessionView { phase: Phase::Done, ..s1 },
                    Some(Act::Succeed(saved)),
                ),
                Some(Emitted::Failed { line }) => (
                    SessionView { phase: Phase::Done, ..s1 },
                    Some(Act::Refuse(line_text(line))),
                ),
            }
        },
        _ => {
            let buf = s.line.push(b);
            if ends_with_crlf(buf) {
                session_line(SessionView { line: Seq::empty(), ..s }, buf.subrange(0, buf.len() - 2))
            } else {
                (SessionView { line: buf, ..s }, None)
            }
        },
    }
}

/// The message when the server closes the connection too early.
pub open spec fn closed_text() -> Seq<char> {
    "connection closed before the exchange ended"@
}

/// What the end of the server's input does to the session.
pub open spec fn session_end(s: SessionView) -> (SessionView, Option<Act>) {
    if s.phase == Phase::Done {
        (s, None)
    } else {
        (SessionView { phase: Phase::Done, ..s }, Some(Act::Closed(closed_text())))
    }
}

/// The session fed `bs` byte by byte, with the actions it asks for.
pub open spec fn session_run(s: SessionView, bs: Seq<u8>) -> (SessionView, Seq<Act>) {
    run_until(session_step_fn(), |a: Act| false, s, bs)
}

/// `session_step` as a value.
pub open spec fn session_step_fn() -> spec_fn(SessionView, u8) -> (SessionView, Option<Act>) {
    |s: SessionView, b: u8| session_step(s, b)
}

/// Feeding two pieces one after the other is feeding the whole.
pub proof fn lemma_session_split(s: SessionView, a: Seq<u8>, b: Seq<u8>)
    ensures
        session_run(s, a + b) == ({
            let (s1, acts1) = session_run(s, a);
            let (s2, acts2) = session_run(s1, b);
            (s2, acts1 + acts2)
        }),
{
    lemma_run_until_split(session_step_fn(), |a: Act| false, s, a, b);
}

/// Once the exchange is over, no input makes the session ask for anything.
pub proof fn lemma_done_is_final(s: SessionView, bs: Seq<u8>)
    requires
        s.phase == Phase::Done,
    ensures
        session_run(s, bs) == (s, Seq::<Act>::empty()),
    decreases bs.len(),
{
    if bs.len() > 0 {
        lemma_done_is_final(s, bs.drop_last());
    }
}

/// One whole line, in a phase that reads lines, does what `session_line` says.
proof fn lemma_one_line(s: SessionView, line: Seq<u8>)
    requires
        s.phase != Phase::Fetching && s.phase != Phase::Done,
        s.line.len() == 0,
        no_crlf(line),
    ensures
        session_run(s, line + seq![13u8, 10u8]) == ({
            let (s1, a) = session_line(s, line);
            (s1, match a {
                Some(x) => seq![x],
                None => Seq::<Act>::empty(),
            })
        }),
{
    let with_line = |p: Seq<u8>| SessionView { line: p, ..s };
    assert(buffers_lines(session_step_fn(), with_line));
    assert(s.line =~= Seq::<u8>::empty());
    assert(with_line(Seq::empty()) == s);
    lemma_one_line_of(session_step_fn(), |a: Act| false, with_line, line);
    let n = line.len() as int;
    assert(line.push(13u8).push(10u8).subrange(0, n) =~= line);
}

/// A login the server rejects ends the exchange: the tagged answer without `OK`
/// yields the rejection, an `AuthenticationError`, and nothing else, whatever
/// the server sends after it; in particular the session never asks to select
/// the mailbox.
pub proof fn lemma_rejected_login_stops(s: SessionView, line: Seq<u8>, rest: Seq<u8>)
    requires
        s.phase == Phase::LoggingIn,
        s.line.len() == 0,
        no_crlf(line),
        login_verdict(line) == Some(false),
    ensures
        session_run(s, line + seq![13u8, 10u8] + rest).1 == seq![Act::Reject(auth_failure_text())],
{
    lemma_one_line(s, line);
    let done = session_line(s, line).0;
    lemma_session_split(s, line + seq![13u8, 10u8], rest);
    lemma_done_is_final(done, rest);
    assert(seq![Act::Reject(auth_failure_text())] + Seq::<Act>::empty() =~= seq![
        Act::Reject(auth_failure_text()),
    ]);
}

/// A selection the server refuses ends the exchange: the tagged answer without
/// `OK` yields an `ImapError` with the selection's failure message, and nothing
/// else, whatever the server sends after it; in particular no fetch is sent.
pub proof fn lemma_refused_select_stops(s: SessionView, line: Seq<u8>, rest: Seq<u8>)
    requires
        s.phase == Phase::Selecting,
        s.line.len() == 0,
        no_crlf(line),
        starts_with(line, select_tag()),
        !contains(line, ok_marker()),
    ensures
        session_run(s, line + seq![13u8, 10u8] + rest).1 == seq![
            Act::Refuse(select_failure_text()),
        ],
{
    lemma_one_line(s, line);
    let done = session_line(s, line).0;
    lemma_session_split(s, line + seq![13u8, 10u8], rest);
    lemma_done_is_final(done, rest);
    assert(seq![Act::Refuse(select_failure_text())] + Seq::<Act>::empty() =~= seq![
        Act::Refuse(select_failure_text()),
    ]);
}

/// One connection's exchange with the server: greeting, login, select, and for
/// a fetch the fetch command and its answer. It is fed the bytes the server
/// sends and says what to do next; it performs no I/O itself.
pub struct Session {
    purpose: Purpose,
    phase: Phase,
    user: String,
    secret: String,
    reader: LineReader,
    scan: SelectScan,
    decoder: ResponseDecoder,
}

impl View for Session {
    type V = SessionView;

    closed spec fn view(&self) -> SessionView {
        SessionView {
            purpose: self.purpose,
            phase: self.phase,
            user: encode_utf8(self.user@),
            secret: encode_utf8(self.secret@),
            line: self.reader@,
            count: self.scan@,
            decoder: self.decoder@,
        }
    }
}

impl Session {
    /// A session that logs in as `user` with `secret` for `purpose`.
    pub fn new(purpose: Purpose, user: String, secret: String) -> (r: Session)
        ensures
            r@.purpose == purpose,
            r@.phase == Phase::Greeting,
            r@.user == encode_utf8(user@),
            r@.secret == encode_utf8(secret@),
            r@.line == Seq::<u8>::empty(),
            r@.count == 0,
            r@.decoder == (DecoderView {
                tag: fetch_tag(),
                state: DecoderState::ReadingLine,
                line: Seq::empty(),
                id: 0,
                pending: Seq::empty(),
                saved: 0,
            }),
    {
        Session {
            purpose,
            phase: Phase::Greeting,
            user,
            secret,
            reader: LineReader::new(),
            scan: SelectScan::new(),
            decoder: ResponseDecoder::new(),
        }
    }

    pub fn phase(&self) -> (r: Phase)
        ensures
            r == self@.phase,
    {
        self.phase
    }

    fn on_line(&mut self, line: Vec<u8>) -> (r: Option<SessionAction>)
        requires
            old(self)@.phase != Phase::Fetching && old(self)@.phase != Phase::Done,
        ensures
            (final(self)@, act_view(r)) == session_line(old(self)@, line@),
    {
        match self.phase {
            Phase::Greeting => {
                self.phase = Phase::LoggingIn;
                Some(SessionAction::Send(login_command(self.user.as_str(), self.secret.as_str())))
            },
            Phase::LoggingIn => match login_reply(line.as_slice()) {
                None => None,
                Some(Ok(())) => {
                    self.phase = Phase::Selecting;
                    Some(SessionAction::Send(select_command()))
                },
                Some(Err(e)) => {
                    self.phase = Phase::Done;
                    Some(SessionAction::Finish(Err(e)))
                },
            },
            _ => match self.scan.on_line(line.as_slice()) {
                None => None,
                Some(Ok(count)) => match self.purpose {
                    Purpose::Count => {
                        self.phase = Phase::Done;
                        Some(SessionAction::Finish(Ok(count as u64)))
                    },
                    Purpose::Fetch(range) => {
                        self.phase = Phase::Fetching;
                        Some(SessionAction::Send(fetch_command(range)))
                    },
                },
                Some(Err(e)) => {
                    self.phase = Phase::Done;
                    Some(SessionAction::Finish(Err(e)))
                },
            },
        }
    }

    /// The server closed the connection. Before the exchange has ended that is a
    /// failure, reported once; afterwards nothing is left to do.
    pub fn on_end(&mut self) -> (r: Option<SessionAction>)
        ensures
            (final(self)@, act_view(r)) == session_end(old(self)@),
    {
        if self.phase == Phase::Done {
            return None;
        }
        self.phase = Phase::Done;
        let text = "connection closed before the exchange ended".to_string();
        Some(SessionAction::Finish(Err(ClientError::ConnectionError(text))))
    }

    /// Takes one byte from the server; returns what it makes the caller do.
    pub fn on_byte(&mut self, b: u8) -> (r: Option<SessionAction>)
        ensures
            (final(self)@, act_view(r)) == session_step(old(self)@, b),
    {
        match self.phase {
            Phase::Done => None,
            Phase::Fetching => match self.decoder.feed_byte(b) {
                None => None,
                Some(DecodeEvent::Message { id, body }) => Some(SessionAction::Save { id, body }),
                Some(DecodeEvent::Completed { saved }) => {
                    self.phase = Phase::Done;
                    Some(SessionAction::Finish(Ok(saved)))
                },
                Some(DecodeEvent::Failed { line }) => {
                    self.phase = Phase::Done;
                    let text = lossy_text(line.as_slice());
                    Some(SessionAction::Finish(Err(ClientError::ImapError(text))))
                },
            },
            _ => match self.reader.push(b) {
                None => None,
                Some(line) => self.on_line(line),
            },
        }
    }
}

} // verus!
