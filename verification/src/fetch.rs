//! What the library asks of its caller's transport, and what it makes of the
//! answer. The library sends nothing itself: it says which URL to fetch, and
//! the caller comes back with the reply.
//!
//! The lifetime that a reply grants is read from its `Cache-Control` header
//! by the `cache_control` crate; that call is the one item of this file that
//! is not proved.

use vstd::prelude::*;
use crate::error::SigninError;

verus! {

/// What a GET request came to, as the caller's transport reports it.
#[derive(Debug)]
pub enum Reply<T> {
    /// The request did not complete.
    Failed,
    /// The endpoint answered.
    Answered {
        /// The HTTP status code.
        status: u16,
        /// The value of the `Cache-Control` header, where the answer has one
        /// that is readable text.
        cache_control: Option<String>,
        /// The body decoded from JSON, or `None` where it was not read or
        /// could not be decoded.
        body: Option<T>,
    },
}

/// What the caller is to do next.
#[derive(Debug)]
pub enum Step<T> {
    /// Fetch this URL, and call again with the reply.
    Fetch(String),
    /// The operation has ended, with this result.
    Done(Result<T, SigninError>),
}

/// What `cache_control::CacheControl::from_value` reports as `max_age` for a
/// header value, in whole seconds: `None` where it rejects the value or finds
/// no `max-age` directive in it.
pub uninterp spec fn max_age_of(value: Seq<char>) -> Option<u64>;

/// Calls `cache_control::CacheControl::from_value` and hands out the seconds
/// of the `max_age` it reports. The contract only names the outcome as
/// `max_age_of` of the header value.
#[verifier::external_body]
pub(crate) fn parse_max_age(value: &str) -> (age: Option<u64>)
    ensures
        age == max_age_of(value@),
{
    cache_control::CacheControl::from_value(value).and_then(|directives| directives.max_age).map(
        |age| age.as_secs(),
    )
}

/// The instant up to which an answer received at `now` stays fresh: `now`
/// plus the lifetime, where a lifetime was granted and the sum can be
/// represented.
pub open spec fn expiry_from(now: u64, max_age: Option<u64>) -> Option<u64> {
    match max_age {
        Some(age) => if now + age <= u64::MAX {
            Some((now + age) as u64)
        } else {
            None
        },
        None => None,
    }
}

/// The expiry that a `Cache-Control` header value grants to an answer
/// received at `now`.
pub open spec fn granted_expiry(cache_control: Option<String>, now: u64) -> Option<u64> {
    match cache_control {
        Some(value) => expiry_from(now, max_age_of(value@)),
        None => None,
    }
}

/// The status says that the request succeeded: it is from 200 to 299.
pub open spec fn success(status: u16) -> bool {
    200 <= status <= 299
}

/// What a reply amounts to: its decoded body where the request completed with
/// a status from 200 to 299 and the body could be decoded, else the failure.
/// A request that did not complete and a body that could not be decoded are
/// connection errors; a status that is not from 200 to 299 is reported as
/// `InvalidToken`, whatever the body.
pub open spec fn outcome<T>(reply: Reply<T>) -> Result<T, SigninError> {
    match reply {
        Reply::Failed => Err(SigninError::ConnectionError),
        Reply::Answered { status, cache_control, body } => if !success(status) {
            Err(SigninError::InvalidToken)
        } else {
            match body {
                Some(decoded) => Ok(decoded),
                None => Err(SigninError::ConnectionError),
            }
        },
    }
}

/// Whether the status says that the request succeeded. Only then is the body
/// of an answer read.
pub fn is_success(status: u16) -> (succeeded: bool)
    ensures
        succeeded == success(status),
{
    200 <= status && status <= 299
}

impl<T> Reply<T> {
    /// The decoded body of a successful reply, with the value of its
    /// `Cache-Control` header; the failure of any other reply.
    pub fn into_body(self) -> (body: Result<(T, Option<String>), SigninError>)
        ensures
            match body {
                Ok((decoded, cache_control)) => outcome(self) == Ok::<T, SigninError>(decoded)
                    && self->cache_control == cache_control,
                Err(error) => outcome(self) == Err::<T, SigninError>(error),
            },
    {
        match self {
            Reply::Failed => Err(SigninError::ConnectionError),
            Reply::Answered { status, cache_control, body } => {
                if !is_success(status) {
                    return Err(SigninError::InvalidToken);
                }
                match body {
                    Some(decoded) => Ok((decoded, cache_control)),
                    None => Err(SigninError::ConnectionError),
                }
            },
        }
    }
}

/// The instant up to which an answer received at `now` with the given
/// lifetime in seconds stays fresh.
pub fn expiry_after(now: u64, max_age: Option<u64>) -> (expiry: Option<u64>)
    ensures
        expiry == expiry_from(now, max_age),
{
    match max_age {
        Some(age) => now.checked_add(age),
        None => None,
    }
}

/// The expiry that the `Cache-Control` header of an answer grants, if any.
pub fn expiry_granted(cache_control: &Option<String>, now: u64) -> (expiry: Option<u64>)
    ensures
        expiry == granted_expiry(*cache_control, now),
{
    match cache_control {
        Some(value) => expiry_after(now, parse_max_age(value.as_str())),
        None => None,
    }
}

} // verus!
