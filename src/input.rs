use vstd::prelude::*;
use vstd::utf8::encode_utf8;

use crate::error_imap::ClientError;
use crate::text::{contains, contains_bytes};

verus! {

/// Connections opened at once when nothing else is asked for.
pub const DEFAULT_CONCURRENCY: usize = 5;

/// What a run needs: the account, where to save, and how many connections at once.
pub struct ImapConfig {
    pub email: String,
    pub password: String,
    pub dir_path: String,
    pub max_concurrent: usize,
}

impl ImapConfig {
    /// An empty configuration with the default concurrency.
    pub fn new() -> (r: ImapConfig)
        ensures
            r.email@.len() == 0,
            r.password@.len() == 0,
            r.dir_path@.len() == 0,
            r.max_concurrent == DEFAULT_CONCURRENCY,
    {
        ImapConfig {
            email: String::new(),
            password: String::new(),
            dir_path: String::new(),
            max_concurrent: Self::determine_optimal_concurrency(),
        }
    }

    /// The number of connections to open at once: a fixed, modest number, so as
    /// not to strain the server.
    pub fn determine_optimal_concurrency() -> (r: usize)
        ensures
            r == DEFAULT_CONCURRENCY,
    {
        DEFAULT_CONCURRENCY
    }
}

/// Whether `c` has the Unicode `White_Space` property.
pub open spec fn white_space(c: char) -> bool {
    let u = c as u32;
    ||| 0x09 <= u <= 0x0d
    ||| u == 0x20
    ||| u == 0x85
    ||| u == 0xa0
    ||| u == 0x1680
    ||| 0x2000 <= u <= 0x200a
    ||| u == 0x2028
    ||| u == 0x2029
    ||| u == 0x202f
    ||| u == 0x205f
    ||| u == 0x3000
}

/// Whether `c` is white space, by the Unicode `White_Space` list (the list that
/// `char::is_whitespace` follows).
fn is_space(c: char) -> (r: bool)
    ensures
        r == white_space(c),
{
    let u = c as u32;
    (0x09 <= u && u <= 0x0d) || u == 0x20 || u == 0x85 || u == 0xa0 || u == 0x1680 || (0x2000
        <= u && u <= 0x200a) || u == 0x2028 || u == 0x2029 || u == 0x202f || u == 0x205f || u
        == 0x3000
}

/// Relies on `String::push`: appends one character.
#[verifier::external_body]
fn push_char(s: &mut String, c: char)
    ensures
        final(s)@ == old(s)@.push(c),
{
    s.push(c)
}

/// `s` with every white-space character taken out.
pub open spec fn without_spaces(s: Seq<char>) -> Seq<char>
    decreases s.len(),
{
    if s.len() == 0 {
        s
    } else if white_space(s.last()) {
        without_spaces(s.drop_last())
    } else {
        without_spaces(s.drop_last()).push(s.last())
    }
}

/// Cleans up what the user typed: all white space goes, and nothing may be left
/// empty.
pub fn normalize_input(raw: &str) -> (r: Result<String, ClientError>)
    ensures
        without_spaces(raw@).len() == 0 ==> (r matches Err(ClientError::EmptyInput { field })
            && field@ == "input"@),
        without_spaces(raw@).len() > 0 ==> (r matches Ok(s) && s@ == without_spaces(raw@)),
{
    let mut out = String::new();
    for c in it: raw.chars()
        invariant
            it.seq() == raw@,
            out@ == without_spaces(raw@.take(it.index())),
    {
        proof {
            assert(raw@.take(it.index() + 1).drop_last() =~= raw@.take(it.index()));
        }
        if !is_space(c) {
            push_char(&mut out, c);
        }
    }
    assert(raw@.take(raw@.len() as int) =~= raw@);
    if out.as_str().is_empty() {
        return Err(ClientError::EmptyInput { field: "input".to_string() });
    }
    Ok(out)
}

/// The address holds an `@` and a `.`.
pub open spec fn looks_like_email(email: Seq<u8>) -> bool {
    contains(email, seq![64u8]) && contains(email, seq![46u8])
}

/// The message of a malformed address.
pub open spec fn bad_email_text() -> Seq<char> {
    "Invalid email format"@
}

/// Rejects an empty address, and one without `@` or without `.`.
pub fn validate_email(email: &str) -> (r: Result<(), ClientError>)
    ensures
        email@.len() == 0 ==> (r matches Err(ClientError::EmptyInput { field }) && field@
            == "email"@),
        email@.len() > 0 && !looks_like_email(encode_utf8(email@)) ==> (r matches Err(
            ClientError::InputError(m),
        ) && m@ == bad_email_text()),
        r is Ok <==> email@.len() > 0 && looks_like_email(encode_utf8(email@)),
{
    if email.is_empty() {
        return Err(ClientError::EmptyInput { field: "email".to_string() });
    }
    let at: [u8; 1] = [64u8];
    let dot: [u8; 1] = [46u8];
    assert(at@ == seq![64u8] && dot@ == seq![46u8]);
    let bytes = email.as_bytes();
    if !contains_bytes(bytes, at.as_slice()) || !contains_bytes(bytes, dot.as_slice()) {
        return Err(ClientError::InputError("Invalid email format".to_string()));
    }
    Ok(())
}

/// Rejects an empty password.
pub fn validate_password(password: &str) -> (r: Result<(), ClientError>)
    ensures
        password@.len() == 0 ==> (r matches Err(ClientError::EmptyInput { field }) && field@
            == "password"@),
        r is Ok <==> password@.len() > 0,
{
    if password.is_empty() {
        return Err(ClientError::EmptyInput { field: "password".to_string() });
    }
    Ok(())
}

/// Builds the configuration from the answers the user gave: the address and the
/// password are checked, in that order, and the default concurrency is used.
pub fn prompt_imap_config(email: String, password: String, dir_path: String) -> (r: Result<
    ImapConfig,
    ClientError,
>)
    ensures
        email@.len() == 0 ==> (r matches Err(ClientError::EmptyInput { field }) && field@
            == "email"@),
        email@.len() > 0 && !looks_like_email(encode_utf8(email@)) ==> (r matches Err(
            ClientError::InputError(m),
        ) && m@ == bad_email_text()),
        email@.len() > 0 && looks_like_email(encode_utf8(email@)) && password@.len()
            == 0 ==> (r matches Err(ClientError::EmptyInput { field }) && field@ == "password"@),
        r is Ok <==> email@.len() > 0 && looks_like_email(encode_utf8(email@))
            && password@.len() > 0,
        r matches Ok(c) ==> c.email@ == email@ && c.password@ == password@ && c.dir_path@
            == dir_path@ && c.max_concurrent == DEFAULT_CONCURRENCY,
{
    validate_email(email.as_str())?;
    validate_password(password.as_str())?;
    let mut config = ImapConfig::new();
    config.email = email;
    config.password = password;
    config.dir_path = dir_path;
    Ok(config)
}

} // verus!
