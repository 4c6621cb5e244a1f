use vstd::prelude::*;
use vstd::string::StringSliceAdditionalSpecFns;

use crate::error_imap::ClientError;
use crate::ranges::FetchRange;
use crate::text::{
    append_bytes, contains, contains_bytes, decimal, decimal_digits, ends_with_crlf,
    matches_at, pad_zeros, parse_decimal, parse_u32, starts_with, zero_padded,
};

verus! {

/// `A001`, the tag of the login command.
pub open spec fn login_tag() -> Seq<u8> {
    seq![65u8, 48u8, 48u8, 49u8]
}

/// `A002`, the tag of the select command.
pub open spec fn select_tag() -> Seq<u8> {
    seq![65u8, 48u8, 48u8, 50u8]
}

/// `OK`
pub open spec fn ok_marker() -> Seq<u8> {
    seq![79u8, 75u8]
}

/// Splits a byte stream into CR LF terminated lines.
pub struct LineReader {
    buf: Vec<u8>,
}

impl View for LineReader {
    type V = Seq<u8>;

    closed spec fn view(&self) -> Seq<u8> {
        self.buf@
    }
}

impl LineReader {
    pub fn new() -> (r: LineReader)
        ensures
            r@ == Seq::<u8>::empty(),
    {
        LineReader { buf: Vec::new() }
    }

    /// Takes one byte; returns the line it completes, without its CR LF.
    pub fn push(&mut self, b: u8) -> (r: Option<Vec<u8>>)
        ensures
            ends_with_crlf(old(self)@.push(b)) ==> (r matches Some(line) && line@ == old(
                self,
            )@.push(b).subrange(0, old(self)@.len() - 1)) && final(self)@ == Seq::<u8>::empty(),
            !ends_with_crlf(old(self)@.push(b)) ==> r is None && final(self)@ == old(self)@.push(
                b,
            ),
    {
        self.buf.push(b);
        let n = self.buf.len();
        if n >= 2 && self.buf[n - 2] == 13u8 && self.buf[n - 1] == 10u8 {
            let mut line: Vec<u8> = Vec::new();
            core::mem::swap(&mut line, &mut self.buf);
            line.truncate(n - 2);
            Some(line)
        } else {
            None
        }
    }
}

/// What a line read after the login command decides: nothing until the line
/// tagged `A001`; then success if it holds `OK`, else a rejected login.
pub open spec fn login_verdict(line: Seq<u8>) -> Option<bool> {
    if starts_with(line, login_tag()) {
        Some(contains(line, ok_marker()))
    } else {
        None
    }
}

/// The message of a rejected login.
pub open spec fn auth_failure_text() -> Seq<char> {
    "Authentication failed"@
}

/// The message of a refused selection.
pub open spec fn select_failure_text() -> Seq<char> {
    "Failed to select INBOX"@
}

/// Judges a line read after the login command: `None` until the tagged line.
pub fn login_reply(line: &[u8]) -> (r: Option<Result<(), ClientError>>)
    ensures
        login_verdict(line@) == Some(true) <==> r matches Some(Ok(())),
        login_verdict(line@) == Some(false) <==> (r matches Some(
            Err(ClientError::AuthenticationError(m)),
        ) && m@ == auth_failure_text()),
        login_verdict(line@) is None <==> r is None,
{
    let tag: [u8; 4] = [65u8, 48u8, 48u8, 49u8];
    let ok: [u8; 2] = [79u8, 75u8];
    assert(tag@ == login_tag() && ok@ == ok_marker());
    if !matches_at(line, tag.as_slice(), 0) {
        return None;
    }
    if contains_bytes(line, ok.as_slice()) {
        Some(Ok(()))
    } else {
        Some(Err(ClientError::AuthenticationError("Authentication failed".to_string())))
    }
}

/// `EXISTS`
pub open spec fn exists_word() -> Seq<u8> {
    seq![69u8, 88u8, 73u8, 83u8, 84u8, 83u8]
}

/// ASCII white space: space, tab, line feed, vertical tab, form feed, carriage return.
pub open spec fn is_blank(b: u8) -> bool {
    b == 32 || (9 <= b && b <= 13)
}

/// The three-byte UTF-8 forms of the white-space characters U+1680, U+2000 to
/// U+200A, U+2028, U+2029, U+202F, U+205F and U+3000.
pub open spec fn is_wide_blank(a: u8, b: u8, c: u8) -> bool {
    ||| (a == 0xe1 && b == 0x9a && c == 0x80)
    ||| (a == 0xe2 && b == 0x80 && ((0x80 <= c && c <= 0x8a) || c == 0xa8 || c == 0xa9 || c == 0xaf))
    ||| (a == 0xe2 && b == 0x81 && c == 0x9f)
    ||| (a == 0xe3 && b == 0x80 && c == 0x80)
}

/// The length of the UTF-8 encoded white-space character (Unicode `White_Space`)
/// that starts at position `i` of `s`; 0 when none does.
pub open spec fn blank_len(s: Seq<u8>, i: int) -> int {
    if 0 <= i < s.len() && is_blank(s[i]) {
        1
    } else if 0 <= i && i + 1 < s.len() && s[i] == 0xc2 && (s[i + 1] == 0x85 || s[i + 1] == 0xa0) {
        2
    } else if 0 <= i && i + 2 < s.len() && is_wide_blank(s[i], s[i + 1], s[i + 2]) {
        3
    } else {
        0
    }
}

/// The first position at or after `i` where no white space starts.
pub open spec fn skip_blanks(s: Seq<u8>, i: int) -> int
    decreases s.len() - i,
{
    if i < 0 || i >= s.len() || blank_len(s, i) == 0 {
        i
    } else {
        skip_blanks(s, i + blank_len(s, i))
    }
}

/// The first position at or after `i` where white space starts, or the end.
pub open spec fn word_end(s: Seq<u8>, i: int) -> int
    decreases s.len() - i,
{
    if i < 0 || i >= s.len() || blank_len(s, i) > 0 {
        i
    } else {
        word_end(s, i + 1)
    }
}

/// The second word of `s`, words being separated by white space (Unicode
/// `White_Space`, as UTF-8); empty when there is none.
pub open spec fn second_word(s: Seq<u8>) -> Seq<u8> {
    let a1 = skip_blanks(s, word_end(s, skip_blanks(s, 0)));
    s.subrange(a1, word_end(s, a1))
}

/// A word read as a `u32`: decimal digits, with an optional leading `+`.
pub open spec fn parse_count(w: Seq<u8>) -> Option<u32> {
    if w.len() > 0 && w[0] == 43u8 {
        parse_u32(w.drop_first())
    } else {
        parse_u32(w)
    }
}

/// The message count that a line holding `EXISTS` reports in its second word
/// (as in `* 42 EXISTS`); `None` for other lines and unreadable counts.
pub open spec fn exists_count(line: Seq<u8>) -> Option<u32> {
    if contains(line, exists_word()) {
        parse_count(second_word(line))
    } else {
        None
    }
}

fn blank_len_at(s: &[u8], i: usize) -> (r: usize)
    requires
        i < s@.len(),
    ensures
        r == blank_len(s@, i as int),
        i + r <= s@.len(),
{
    let n = s.len();
    let b = s[i];
    if b == 32u8 || (9u8 <= b && b <= 13u8) {
        return 1;
    }
    if n - i > 1 && b == 0xc2u8 && (s[i + 1] == 0x85u8 || s[i + 1] == 0xa0u8) {
        return 2;
    }
    if n - i > 2 {
        let c1 = s[i + 1];
        let c2 = s[i + 2];
        let wide = (b == 0xe1u8 && c1 == 0x9au8 && c2 == 0x80u8) || (b == 0xe2u8 && c1 == 0x80u8
            && ((0x80u8 <= c2 && c2 <= 0x8au8) || c2 == 0xa8u8 || c2 == 0xa9u8 || c2 == 0xafu8))
            || (b == 0xe2u8 && c1 == 0x81u8 && c2 == 0x9fu8) || (b == 0xe3u8 && c1 == 0x80u8 && c2
            == 0x80u8);
        if wide {
            return 3;
        }
    }
    0
}

fn skip_blanks_from(s: &[u8], i: usize) -> (r: usize)
    requires
        i <= s@.len(),
    ensures
        r == skip_blanks(s@, i as int),
        i <= r <= s@.len(),
{
    let mut j = i;
    loop
        invariant
            i <= j <= s@.len(),
            skip_blanks(s@, i as int) == skip_blanks(s@, j as int),
        decreases s@.len() - j,
    {
        if j >= s.len() {
            return j;
        }
        let k = blank_len_at(s, j);
        if k == 0 {
            return j;
        }
        j = j + k;
    }
}

fn word_end_from(s: &[u8], i: usize) -> (r: usize)
    requires
        i <= s@.len(),
    ensures
        r == word_end(s@, i as int),
        i <= r <= s@.len(),
{
    let mut j = i;
    loop
        invariant
            i <= j <= s@.len(),
            word_end(s@, i as int) == word_end(s@, j as int),
        decreases s@.len() - j,
    {
        if j >= s.len() {
            return j;
        }
        if blank_len_at(s, j) > 0 {
            return j;
        }
        j = j + 1;
    }
}

/// Reads the message count of a line that holds `EXISTS`.
pub fn parse_exists(line: &[u8]) -> (r: Option<u32>)
    ensures
        r == exists_count(line@),
{
    let word: [u8; 6] = [69u8, 88u8, 73u8, 83u8, 84u8, 83u8];
    assert(word@ == exists_word());
    if !contains_bytes(line, word.as_slice()) {
        return None;
    }
    let a0 = skip_blanks_from(line, 0);
    let e0 = word_end_from(line, a0);
    let a1 = skip_blanks_from(line, e0);
    let e1 = word_end_from(line, a1);
    let (left, _) = line.split_at(e1);
    let (_, w) = left.split_at(a1);
    assert(w@ =~= second_word(line@));
    if w.len() > 0 && w[0] == 43u8 {
        let (_, digits) = w.split_at(1);
        assert(digits@ =~= w@.drop_first());
        parse_decimal(digits)
    } else {
        parse_decimal(w)
    }
}

/// Follows the answer to the select command, keeping the last message count
/// announced.
pub struct SelectScan {
    count: u32,
}

impl View for SelectScan {
    type V = u32;

    closed spec fn view(&self) -> u32 {
        self.count
    }
}

impl SelectScan {
    pub fn new() -> (r: SelectScan)
        ensures
            r@ == 0,
    {
        SelectScan { count: 0 }
    }

    /// Message count announced so far; 0 when none was.
    pub fn count(&self) -> (r: u32)
        ensures
            r == self@,
    {
        self.count
    }

    /// Takes one line of the answer. A line with a readable count replaces the
    /// count; others leave it. The line tagged `A002` ends the answer: with `OK`
    /// it gives the count, without it a failed selection.
    pub fn on_line(&mut self, line: &[u8]) -> (r: Option<Result<u32, ClientError>>)
        ensures
            final(self)@ == (match exists_count(line@) {
                Some(c) => c,
                None => old(self)@,
            }),
            !starts_with(line@, select_tag()) ==> r is None,
            starts_with(line@, select_tag()) && contains(line@, ok_marker()) ==> r == Some(
                Ok::<u32, ClientError>(final(self)@),
            ),
            starts_with(line@, select_tag()) && !contains(line@, ok_marker()) ==> (r matches Some(
                Err(ClientError::ImapError(m)),
            ) && m@ == select_failure_text()),
    {
        if let Some(c) = parse_exists(line) {
            self.count = c;
        }
        let tag: [u8; 4] = [65u8, 48u8, 48u8, 50u8];
        let ok: [u8; 2] = [79u8, 75u8];
        assert(tag@ == select_tag() && ok@ == ok_marker());
        if !matches_at(line, tag.as_slice(), 0) {
            return None;
        }
        if contains_bytes(line, ok.as_slice()) {
            Some(Ok(self.count))
        } else {
            Some(Err(ClientError::ImapError("Failed to select INBOX".to_string())))
        }
    }
}

/// `A001 LOGIN <user> <secret>` and CR LF.
pub open spec fn login_bytes(user: Seq<u8>, secret: Seq<u8>) -> Seq<u8> {
    seq![65u8, 48u8, 48u8, 49u8, 32u8, 76u8, 79u8, 71u8, 73u8, 78u8, 32u8] + user + seq![32u8]
        + secret + seq![13u8, 10u8]
}

/// `A003 FETCH <start>:<end> (BODY[])` and CR LF.
pub open spec fn fetch_bytes(range: FetchRange) -> Seq<u8> {
    seq![65u8, 48u8, 48u8, 51u8, 32u8, 70u8, 69u8, 84u8, 67u8, 72u8, 32u8] + decimal_digits(
        range.start as nat,
    ) + seq![58u8] + decimal_digits(range.end as nat) + seq![
        32u8,
        40u8,
        66u8,
        79u8,
        68u8,
        89u8,
        91u8,
        93u8,
        41u8,
        13u8,
        10u8,
    ]
}

/// `email_<id in five or more digits>.eml`
pub open spec fn file_name_bytes(id: u32) -> Seq<u8> {
    seq![101u8, 109u8, 97u8, 105u8, 108u8, 95u8] + zero_padded(decimal_digits(id as nat), 5)
        + seq![46u8, 101u8, 109u8, 108u8]
}

/// The login command for `user` with `secret`.
pub fn login_command(user: &str, secret: &str) -> (r: Vec<u8>)
    ensures
        r@ == login_bytes(user.spec_bytes(), secret.spec_bytes()),
{
    let head: [u8; 11] = [65u8, 48u8, 48u8, 49u8, 32u8, 76u8, 79u8, 71u8, 73u8, 78u8, 32u8];
    let space: [u8; 1] = [32u8];
    let end: [u8; 2] = [13u8, 10u8];
    let mut v: Vec<u8> = Vec::new();
    append_bytes(&mut v, head.as_slice());
    append_bytes(&mut v, user.as_bytes());
    append_bytes(&mut v, space.as_slice());
    append_bytes(&mut v, secret.as_bytes());
    append_bytes(&mut v, end.as_slice());
    assert(v@ =~= login_bytes(user.spec_bytes(), secret.spec_bytes()));
    v
}

/// `A002 SELECT INBOX` and CR LF.
pub open spec fn select_bytes() -> Seq<u8> {
    seq![
        65u8,
        48u8,
        48u8,
        50u8,
        32u8,
        83u8,
        69u8,
        76u8,
        69u8,
        67u8,
        84u8,
        32u8,
        73u8,
        78u8,
        66u8,
        79u8,
        88u8,
        13u8,
        10u8,
    ]
}

/// `A999 LOGOUT` and CR LF.
pub open spec fn logout_bytes() -> Seq<u8> {
    seq![65u8, 57u8, 57u8, 57u8, 32u8, 76u8, 79u8, 71u8, 79u8, 85u8, 84u8, 13u8, 10u8]
}

/// The select command for the inbox.
pub fn select_command() -> (r: Vec<u8>)
    ensures
        r@ == select_bytes(),
{
    vec![65u8, 48u8, 48u8, 50u8, 32u8, 83u8, 69u8, 76u8, 69u8, 67u8, 84u8, 32u8, 73u8, 78u8, 66u8, 79u8, 88u8, 13u8, 10u8]
}

/// The logout command.
pub fn logout_command() -> (r: Vec<u8>)
    ensures
        r@ == logout_bytes(),
{
    vec![65u8, 57u8, 57u8, 57u8, 32u8, 76u8, 79u8, 71u8, 79u8, 85u8, 84u8, 13u8, 10u8]
}

/// The command that fetches the whole bodies of the messages of `range`.
pub fn fetch_command(range: FetchRange) -> (r: Vec<u8>)
    ensures
        r@ == fetch_bytes(range),
{
    let head: [u8; 11] = [65u8, 48u8, 48u8, 51u8, 32u8, 70u8, 69u8, 84u8, 67u8, 72u8, 32u8];
    let colon: [u8; 1] = [58u8];
    let tail: [u8; 11] = [32u8, 40u8, 66u8, 79u8, 68u8, 89u8, 91u8, 93u8, 41u8, 13u8, 10u8];
    let mut v: Vec<u8> = Vec::new();
    append_bytes(&mut v, head.as_slice());
    let start = decimal(range.start);
    append_bytes(&mut v, start.as_slice());
    append_bytes(&mut v, colon.as_slice());
    let end = decimal(range.end);
    append_bytes(&mut v, end.as_slice());
    append_bytes(&mut v, tail.as_slice());
    assert(v@ =~= fetch_bytes(range));
    v
}

/// Name of the file that holds message `id`; it depends on the id alone.
pub fn message_file_name(id: u32) -> (r: Vec<u8>)
    ensures
        r@ == file_name_bytes(id),
{
    let head: [u8; 6] = [101u8, 109u8, 97u8, 105u8, 108u8, 95u8];
    let tail: [u8; 4] = [46u8, 101u8, 109u8, 108u8];
    let mut digits = decimal(id);
    pad_zeros(&mut digits, 5);
    let mut v: Vec<u8> = Vec::new();
    append_bytes(&mut v, head.as_slice());
    append_bytes(&mut v, digits.as_slice());
    append_bytes(&mut v, tail.as_slice());
    assert(v@ =~= file_name_bytes(id));
    v
}

} // verus!
