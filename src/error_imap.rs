use vstd::prelude::*;

verus! {

/// What can go wrong while collecting the configuration or talking to the server.
#[derive(Clone, Debug)]
pub enum ClientError {
    /// Caller-supplied input could not be read or is malformed.
    InputError(String),
    /// A required input was left empty; names the input.
    EmptyInput { field: String },
    UserCancelled,
    /// The server answered a command with a failure; carries the reason.
    ImapError(String),
    TlsError(String),
    ConnectionError(String),
    /// The server rejected the login.
    AuthenticationError(String),
    InvalidDnsName(String),
    TlsConnectionFailed(String),
    ParseError,
    DirectoryError(String),
    FileError(String),
    JoinError(String),
}

} // verus!
