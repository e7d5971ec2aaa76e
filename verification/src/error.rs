//! The error type shared by every operation of the crate.
use vstd::prelude::*;

verus! {

/// The four classes of failure the client reports.
#[derive(Debug, Clone, Copy, PartialEq, Eq, Structural)]
pub enum ErrorKind {
    /// The request itself is invalid (bad arguments, unknown targets, rejected input).
    Config,
    /// Credentials are missing, invalid or expired.
    Auth,
    /// Transport failures and unexpected server answers.
    Network,
    /// A server answer could not be decoded.
    Parse,
}

/// An error of the Kagi client, with a human-readable message.
#[derive(Debug, Clone)]
pub enum KagiError {
    Config(String),
    Auth(String),
    Network(String),
    Parse(String),
}

impl KagiError {
    /// The class of this error.
    pub open spec fn kind(&self) -> ErrorKind {
        match self {
            KagiError::Config(_) => ErrorKind::Config,
            KagiError::Auth(_) => ErrorKind::Auth,
            KagiError::Network(_) => ErrorKind::Network,
            KagiError::Parse(_) => ErrorKind::Parse,
        }
    }

    /// The message of this error.
    pub open spec fn message(&self) -> Seq<char> {
        match self {
            KagiError::Config(m) => m@,
            KagiError::Auth(m) => m@,
            KagiError::Network(m) => m@,
            KagiError::Parse(m) => m@,
        }
    }

    /// The error's message as text.
    pub fn to_string(&self) -> (r: String)
        ensures
            r@ == self.message(),
    {
        match self {
            KagiError::Config(m) => m.clone(),
            KagiError::Auth(m) => m.clone(),
            KagiError::Network(m) => m.clone(),
            KagiError::Parse(m) => m.clone(),
        }
    }

    /// The class of this error, at run time.
    pub fn error_kind(&self) -> (k: ErrorKind)
        ensures
            k == self.kind(),
    {
        match self {
            KagiError::Config(_) => ErrorKind::Config,
            KagiError::Auth(_) => ErrorKind::Auth,
            KagiError::Network(_) => ErrorKind::Network,
            KagiError::Parse(_) => ErrorKind::Parse,
        }
    }
}

/// `r` is an error of class `kind` whose message is `msg`.
pub open spec fn fails_with<T>(r: Result<T, KagiError>, kind: ErrorKind, msg: Seq<char>) -> bool {
    r matches Err(e) && e.kind() == kind && e.message() == msg
}

/// `r` is the string `s`.
pub open spec fn yields_string(r: Result<String, KagiError>, s: Seq<char>) -> bool {
    r matches Ok(v) && v@ == s
}

/// What an operation that yields text is specified to give: the text, or an
/// error of the given class and message.
pub type Outcome = Result<Seq<char>, (ErrorKind, Seq<char>)>;

/// `r` is the outcome `o`.
pub open spec fn outcome_is(r: Result<String, KagiError>, o: Outcome) -> bool {
    match o {
        Ok(b) => yields_string(r, b),
        Err((k, m)) => fails_with(r, k, m),
    }
}

} // verus!
