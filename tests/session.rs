use imap_fetcher::error_imap::ClientError;
use imap_fetcher::ranges::FetchRange;
use imap_fetcher::session::{
    fetch_command, login_command, login_reply, logout_command, message_file_name, parse_exists,
    select_command, LineReader, SelectScan,
};
use imap_fetcher::text::{decimal, parse_decimal};

#[test]
fn line_reader_splits_on_crlf() {
    let mut r = LineReader::new();
    let mut lines = Vec::new();
    for b in b"* OK hello\r\nA001 OK\r\npartial" {
        if let Some(line) = r.push(*b) {
            lines.push(line);
        }
    }
    assert_eq!(lines, vec![b"* OK hello".to_vec(), b"A001 OK".to_vec()]);
}

#[test]
fn login_accepted() {
    assert!(matches!(login_reply(b"A001 OK LOGIN completed"), Some(Ok(()))));
}

#[test]
fn login_rejected_without_success_marker() {
    assert!(matches!(
        login_reply(b"A001 NO [AUTHENTICATIONFAILED] Invalid credentials"),
        Some(Err(ClientError::AuthenticationError(_)))
    ));
}

#[test]
fn untagged_line_does_not_decide_login() {
    assert!(login_reply(b"* CAPABILITY IMAP4rev1").is_none());
}

#[test]
fn select_keeps_last_count() {
    let mut s = SelectScan::new();
    assert!(s.on_line(b"* 12 EXISTS").is_none());
    assert!(s.on_line(b"* FLAGS (\\Seen)").is_none());
    assert!(s.on_line(b"* junk EXISTS").is_none());
    assert!(s.on_line(b"* 15 EXISTS").is_none());
    assert_eq!(s.count(), 15);
    assert!(matches!(s.on_line(b"A002 OK [READ-WRITE] SELECT completed"), Some(Ok(15))));
}

#[test]
fn select_without_count_gives_zero() {
    let mut s = SelectScan::new();
    assert!(matches!(s.on_line(b"A002 OK done"), Some(Ok(0))));
}

#[test]
fn select_failure_is_imap_error() {
    let mut s = SelectScan::new();
    assert!(matches!(s.on_line(b"A002 NO no such mailbox"), Some(Err(ClientError::ImapError(_)))));
}

#[test]
fn exists_count_is_parsed() {
    assert_eq!(parse_exists(b"* 3 EXISTS"), Some(3));
    assert_eq!(parse_exists(b"* 3 RECENT"), None);
}

#[test]
fn commands_are_spelled_out() {
    assert_eq!(login_command("me@example.com", "hunter2"), b"A001 LOGIN me@example.com hunter2\r\n".to_vec());
    assert_eq!(select_command(), b"A002 SELECT INBOX\r\n".to_vec());
    assert_eq!(logout_command(), b"A999 LOGOUT\r\n".to_vec());
    assert_eq!(fetch_command(FetchRange { start: 11, end: 20 }), b"A003 FETCH 11:20 (BODY[])\r\n".to_vec());
}

#[test]
fn file_names_are_zero_padded() {
    assert_eq!(message_file_name(7), b"email_00007.eml".to_vec());
    assert_eq!(message_file_name(0), b"email_00000.eml".to_vec());
    assert_eq!(message_file_name(123456), b"email_123456.eml".to_vec());
    assert_eq!(message_file_name(7), message_file_name(7));
}

#[test]
fn decimals_round_trip() {
    for n in [0u32, 9, 10, 99, 100, 4294967295] {
        assert_eq!(decimal(n), n.to_string().into_bytes());
        assert_eq!(parse_decimal(&decimal(n)), Some(n));
    }
    assert_eq!(parse_decimal(b""), None);
    assert_eq!(parse_decimal(b"12a"), None);
    assert_eq!(parse_decimal(b"4294967296"), None);
}

#[test]
fn exists_count_reads_the_second_word() {
    assert_eq!(parse_exists(b"* 5  EXISTS"), Some(5));
    assert_eq!(parse_exists(b"*\t+7 EXISTS"), Some(7));
    assert_eq!(parse_exists(b"* x EXISTS"), None);
    assert_eq!(parse_exists(b"* EXISTS"), None);
    assert_eq!(parse_exists(b""), None);
}

#[test]
fn refusals_carry_their_messages() {
    match login_reply(b"A001 NO bad") {
        Some(Err(ClientError::AuthenticationError(m))) => assert_eq!(m, "Authentication failed"),
        _ => panic!("login should be rejected"),
    }
    let mut s = SelectScan::new();
    match s.on_line(b"A002 BAD") {
        Some(Err(ClientError::ImapError(m))) => assert_eq!(m, "Failed to select INBOX"),
        _ => panic!("select should be refused"),
    }
}

#[test]
fn exists_count_splits_on_unicode_white_space() {
    assert_eq!(parse_exists("* 12\u{a0}EXISTS".as_bytes()), Some(12));
    assert_eq!(parse_exists("*\u{3000}9\u{2028}EXISTS".as_bytes()), Some(9));
    assert_eq!(parse_exists("*\u{85}4 EXISTS".as_bytes()), Some(4));
    assert_eq!(parse_exists("* 1\u{200b}2 EXISTS".as_bytes()), None);
}
