//! Where usage numbers come from, and what can go wrong reading them.
use vstd::prelude::*;
use vstd::string::*;

pub mod api;
pub mod cached;
pub mod file;
pub mod logs;

verus! {

/// Which part of a usage snapshot a given dial is configured to show.
#[derive(Debug, Clone, Copy, PartialEq, Eq, Structural)]
pub enum WindowKind {
    Session,
    Weekly,
    Monthly,
}

impl Default for WindowKind {
    fn default() -> (r: Self)
        ensures
            r == WindowKind::Session,
    {
        WindowKind::Session
    }
}

/// Why a usage read failed, with the underlying message.
#[derive(Debug, Clone, PartialEq, Eq)]
pub enum UsageSourceError {
    /// The usage file could not be read.
    Read(String),
    /// The data read was not valid usage data.
    Parse(String),
    /// The request for usage failed (network error, non-success status).
    Request(String),
    /// No usable login: unreadable credentials, or an expired token.
    Credentials(String),
}

/// The human-readable message of an error.
pub open spec fn error_message(e: UsageSourceError) -> Seq<char> {
    match e {
        UsageSourceError::Read(m) => "failed to read usage file: "@ + m@,
        UsageSourceError::Parse(m) => "failed to parse usage file: "@ + m@,
        UsageSourceError::Request(m) => "usage request failed: "@ + m@,
        UsageSourceError::Credentials(m) => "credentials unavailable: "@ + m@,
    }
}

impl UsageSourceError {
    /// The human-readable message, as shown in logs.
    pub fn message(&self) -> (r: String)
        ensures
            r@ == error_message(*self),
    {
        let (prefix, detail) = match self {
            UsageSourceError::Read(m) => ("failed to read usage file: ", m),
            UsageSourceError::Parse(m) => ("failed to parse usage file: ", m),
            UsageSourceError::Request(m) => ("usage request failed: ", m),
            UsageSourceError::Credentials(m) => ("credentials unavailable: ", m),
        };
        let mut s = String::from_str(prefix);
        s.append(detail.as_str());
        s
    }
}

} // verus!
