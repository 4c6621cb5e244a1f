use vstd::prelude::*;

use crate::error_imap::ClientError;
use crate::input::ImapConfig;
use crate::orchestrator::Orchestrator;
use crate::ranges::{spec_ranges, BATCH_SIZE};

verus! {

/// The message of a connection limit of zero.
pub open spec fn limit_error_text() -> Seq<char> {
    "the connection limit must be positive"@
}

/// A client that fetches the whole inbox of one account.
pub struct ImapClient {
    config: ImapConfig,
}

impl ImapClient {
    /// The configuration the client runs with.
    pub closed spec fn spec_config(&self) -> ImapConfig {
        self.config
    }

    pub fn new(config: ImapConfig) -> (r: ImapClient)
        ensures
            r.spec_config() == config,
    {
        ImapClient { config }
    }

    pub fn config(&self) -> (r: &ImapConfig)
        ensures
            *r == self.spec_config(),
    {
        &self.config
    }

    /// Checks the connection limit before any connection is opened: a limit of
    /// zero connections could never make progress.
    pub fn check_limit(&self) -> (r: Result<(), ClientError>)
        ensures
            r is Ok <==> self.spec_config().max_concurrent > 0,
            r matches Err(e) ==> (e matches ClientError::InputError(m) && m@ == limit_error_text()),
    {
        if self.config.max_concurrent == 0 {
            return Err(ClientError::InputError("the connection limit must be positive".to_string()));
        }
        Ok(())
    }

    /// Plans the fetch of a mailbox that holds `email_count` messages: batches of
    /// `BATCH_SIZE`, at most `max_concurrent` of them at a time. A limit of zero
    /// connections could never make progress and is rejected.
    pub fn plan_fetch(&self, email_count: u32) -> (r: Result<Orchestrator, ClientError>)
        ensures
            self.spec_config().max_concurrent > 0 ==> r is Ok,
            self.spec_config().max_concurrent == 0 ==> (r matches Err(ClientError::InputError(m))
                && m@ == limit_error_text()),
            r matches Ok(o) ==> o@.ranges == spec_ranges(email_count as nat, BATCH_SIZE as nat)
                && o@.max_concurrent == self.spec_config().max_concurrent && o@.launched == 0
                && o@.in_flight == 0 && o@.outcomes.len() == 0,
    {
        self.check_limit()?;
        Ok(Orchestrator::new(email_count, self.config.max_concurrent))
    }
}

} // verus!
