use imap_fetcher::error_imap::ClientError;
use imap_fetcher::ranges::FetchRange;
use imap_fetcher::worker::{Phase, Purpose, Session, SessionAction};

fn feed(session: &mut Session, bytes: &[u8]) -> Vec<SessionAction> {
    bytes.iter().filter_map(|b| session.on_byte(*b)).collect()
}

fn sent(action: &SessionAction) -> Vec<u8> {
    match action {
        SessionAction::Send(bytes) => bytes.clone(),
        other => panic!("expected a command, got {:?}", other),
    }
}

fn logged_in(purpose: Purpose) -> Session {
    let mut s = Session::new(purpose, "me@example.com".to_string(), "pw".to_string());
    let acts = feed(&mut s, b"* OK Gimap ready\r\n");
    assert_eq!(sent(&acts[0]), b"A001 LOGIN me@example.com pw\r\n".to_vec());
    let acts = feed(&mut s, b"* CAPABILITY IMAP4rev1\r\nA001 OK me@example.com authenticated\r\n");
    assert_eq!(acts.len(), 1);
    assert_eq!(sent(&acts[0]), b"A002 SELECT INBOX\r\n".to_vec());
    assert_eq!(s.phase(), Phase::Selecting);
    s
}

#[test]
fn count_session_reports_exists() {
    let mut s = logged_in(Purpose::Count);
    let acts = feed(&mut s, b"* FLAGS ()\r\n* 42 EXISTS\r\n* 0 RECENT\r\nA002 OK [READ-WRITE] done\r\n");
    assert_eq!(acts.len(), 1);
    assert!(matches!(acts[0], SessionAction::Finish(Ok(42))));
    assert_eq!(s.phase(), Phase::Done);
}

#[test]
fn fetch_session_saves_and_completes() {
    let mut s = logged_in(Purpose::Fetch(FetchRange { start: 1, end: 2 }));
    let acts = feed(&mut s, b"* 2 EXISTS\r\nA002 OK done\r\n");
    assert_eq!(sent(&acts[0]), b"A003 FETCH 1:2 (BODY[])\r\n".to_vec());
    let acts = feed(
        &mut s,
        b"* 1 FETCH (BODY[] {5}\r\nhello)\r\n* 2 FETCH (BODY[] {0}\r\n)\r\nA003 OK Success\r\n",
    );
    assert_eq!(acts.len(), 3);
    assert!(matches!(&acts[0], SessionAction::Save { id: 1, body } if body == b"hello"));
    assert!(matches!(&acts[1], SessionAction::Save { id: 2, body } if body.is_empty()));
    assert!(matches!(acts[2], SessionAction::Finish(Ok(2))));
}

#[test]
fn rejected_login_never_selects() {
    let mut s = Session::new(Purpose::Count, "me@example.com".to_string(), "bad".to_string());
    feed(&mut s, b"* OK ready\r\n");
    let acts = feed(&mut s, b"A001 NO [AUTHENTICATIONFAILED] Invalid credentials\r\nA002 OK\r\n* 3 EXISTS\r\n");
    assert_eq!(acts.len(), 1);
    assert!(matches!(acts[0], SessionAction::Finish(Err(ClientError::AuthenticationError(_)))));
    assert_eq!(s.phase(), Phase::Done);
}

#[test]
fn refused_select_is_imap_error() {
    let mut s = logged_in(Purpose::Count);
    let acts = feed(&mut s, b"A002 NO mailbox unavailable\r\n");
    assert!(matches!(acts[0], SessionAction::Finish(Err(ClientError::ImapError(_)))));
}

#[test]
fn refused_fetch_is_imap_error() {
    let mut s = logged_in(Purpose::Fetch(FetchRange { start: 1, end: 10 }));
    feed(&mut s, b"A002 OK done\r\n");
    let acts = feed(&mut s, b"A003 BAD Could not parse command\r\n");
    assert_eq!(acts.len(), 1);
    match &acts[0] {
        SessionAction::Finish(Err(ClientError::ImapError(text))) => {
            assert_eq!(text, "A003 BAD Could not parse command")
        }
        other => panic!("unexpected action {:?}", other),
    }
}

#[test]
fn early_close_is_a_connection_error() {
    let mut s = logged_in(Purpose::Count);
    assert!(matches!(s.on_end(), Some(SessionAction::Finish(Err(ClientError::ConnectionError(_))))));
    assert_eq!(s.phase(), Phase::Done);
    assert!(s.on_end().is_none());
}

#[test]
fn select_count_with_irregular_spacing() {
    let mut s = logged_in(Purpose::Count);
    let acts = feed(&mut s, b"* 5 EXISTS\r\n* 12  EXISTS\r\n* x EXISTS\r\nA002 OK\r\n");
    assert!(matches!(acts[0], SessionAction::Finish(Ok(12))));
}
