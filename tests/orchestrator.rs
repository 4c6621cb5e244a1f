use imap_fetcher::client::ImapClient;
use imap_fetcher::error_imap::ClientError;
use imap_fetcher::input::ImapConfig;
use imap_fetcher::orchestrator::{Orchestrator, RunSummary};

#[test]
fn empty_mailbox_opens_no_connection() {
    let mut o = Orchestrator::new(0, 5);
    assert!(o.next_launch().is_none());
    assert!(o.is_finished());
    assert_eq!(o.summary(), RunSummary { saved: 0, errored: 0 });
}

#[test]
fn at_most_k_batches_in_flight() {
    let k = 2;
    let mut o = Orchestrator::new(55, k);
    let mut launched = Vec::new();
    let mut peak = 0;
    loop {
        while let Some(r) = o.next_launch() {
            launched.push(r);
            peak = peak.max(o.in_flight());
            assert!(o.in_flight() <= k);
        }
        if o.is_finished() {
            break;
        }
        assert!(o.complete(&Ok(10)));
    }
    assert_eq!(peak, k);
    assert_eq!(launched.len(), 6);
    assert_eq!(launched[5].start, 51);
    assert_eq!(launched[5].end, 55);
    assert_eq!(o.summary(), RunSummary { saved: 60, errored: 0 });
}

#[test]
fn one_failed_batch_does_not_stop_the_others() {
    let mut o = Orchestrator::new(25, 5);
    let mut batches = Vec::new();
    while let Some(r) = o.next_launch() {
        batches.push(r);
    }
    assert_eq!(batches.len(), 3);
    assert!(o.complete(&Ok(10)));
    assert!(o.complete(&Err(ClientError::AuthenticationError("rejected".to_string()))));
    assert!(o.complete(&Ok(5)));
    assert!(o.is_finished());
    assert_eq!(o.summary(), RunSummary { saved: 15, errored: 1 });
}

#[test]
fn completion_without_launch_is_refused() {
    let mut o = Orchestrator::new(10, 1);
    assert!(!o.complete(&Ok(3)));
    assert_eq!(o.summary(), RunSummary { saved: 0, errored: 0 });
}

#[test]
fn client_plans_with_its_limit() {
    let mut config = ImapConfig::new();
    config.max_concurrent = 1;
    let client = ImapClient::new(config);
    assert_eq!(client.config().max_concurrent, 1);
    let mut o = client.plan_fetch(30).ok().unwrap();
    assert!(o.next_launch().is_some());
    assert!(o.next_launch().is_none());
}

#[test]
fn client_rejects_zero_limit() {
    let mut config = ImapConfig::new();
    config.max_concurrent = 0;
    let client = ImapClient::new(config);
    assert!(matches!(client.plan_fetch(30), Err(ClientError::InputError(_))));
}

#[test]
fn client_limit_is_checked_up_front() {
    let mut config = ImapConfig::new();
    config.max_concurrent = 0;
    assert!(matches!(ImapClient::new(config).check_limit(), Err(ClientError::InputError(_))));
    assert!(ImapClient::new(ImapConfig::new()).check_limit().is_ok());
}
