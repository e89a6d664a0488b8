//! The OAuth login used to ask the usage endpoint.
use vstd::prelude::*;
use vstd::string::*;
use crate::source::UsageSourceError;
use crate::time::Timestamp;

verus! {

/// The part of the stored OAuth login that a request needs: the access
/// token, and when it expires (Unix epoch milliseconds), if that is known.
#[derive(Debug, Clone, PartialEq, Eq)]
pub struct OauthLogin {
    pub access_token: String,
    pub expires_at: Option<i64>,
}

/// `now` in non-leap milliseconds since the epoch (a leap second's extra
/// milliseconds are added on top of its second).
pub open spec fn millis_of(now: Timestamp) -> int {
    now.secs * 1000 + now.nanos / 1_000_000
}

/// Message for credentials that could not be read.
pub open spec fn unreadable_message(detail: Seq<char>) -> Seq<char> {
    "unreadable credentials: "@ + detail
}

/// Message for a token that has expired.
pub open spec fn expired_message() -> Seq<char> {
    "access token expired; it renews next time the CLI signs in"@
}

/// The access token to send, from the credentials file as read (`Err` holds
/// why its contents were unreadable). A token that has already expired is
/// refused rather than sent in a request that can only come back 401; a
/// token without an expiry is trusted.
pub fn token_from_login(login: Result<OauthLogin, String>, now: Timestamp) -> (r: Result<
    String,
    UsageSourceError,
>)
    requires
        now.wf(),
    ensures
        match login {
            Err(detail) => r matches Err(UsageSourceError::Credentials(m)) && m@
                == unreadable_message(detail@),
            Ok(l) => match l.expires_at {
                Some(ms) if ms <= millis_of(now) => r matches Err(
                    UsageSourceError::Credentials(m),
                ) && m@ == expired_message(),
                _ => r == Ok::<String, UsageSourceError>(l.access_token),
            },
        },
{
    match login {
        Err(detail) => {
            let mut m = String::from_str("unreadable credentials: ");
            m.append(detail.as_str());
            Err(UsageSourceError::Credentials(m))
        },
        Ok(l) => {
            let now_millis = now.secs * 1000 + (now.nanos / 1_000_000) as i64;
            match l.expires_at {
                Some(ms) => {
                    if ms <= now_millis {
                        return Err(
                            UsageSourceError::Credentials(
                                String::from_str(
                                    "access token expired; it renews next time the CLI signs in",
                                ),
                            ),
                        );
                    }
                },
                None => {},
            }
            Ok(l.access_token)
        },
    }
}

} // verus!
