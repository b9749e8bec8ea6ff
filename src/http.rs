use vstd::prelude::*;
use crate::wire::{parse_u64, spec_parse_u64};

verus! {

/// The status with which the service asks a client to slow down.
pub const TOO_MANY_REQUESTS: u16 = 429;

/// How a request is sent.
#[derive(Debug, Clone, Copy, PartialEq, Eq, Structural)]
pub enum Method {
    Get,
    Post,
    AuthGet,
    AuthPut,
}

impl Method {
    /// Whether the request carries the session's access token.
    pub fn is_authenticated(&self) -> (r: bool)
        ensures
            r == (*self == Method::AuthGet || *self == Method::AuthPut),
    {
        match self {
            Method::AuthGet | Method::AuthPut => true,
            Method::Get | Method::Post => false,
        }
    }
}

/// What to do with the response to a request.
#[derive(Debug, Clone, Copy, PartialEq, Eq, Structural)]
pub enum ResponseAction {
    /// The response is a success: hand it on.
    Accept,
    /// The request was rate limited: send it again, after the number of
    /// seconds that the service gave, if it gave one.
    Retry { delay_secs: Option<u64> },
    /// Any other error status: the request fails.
    Fail,
}

/// The seconds to wait that a `Retry-After` header value gives, if it is a
/// decimal number.
pub fn get_retry_duration(retry_after: Option<&str>) -> (r: Option<u64>)
    ensures
        match retry_after {
            Some(v) => r == spec_parse_u64(v@),
            None => r is None,
        },
{
    match retry_after {
        Some(v) => parse_u64(v),
        None => None,
    }
}

/// Decides on a response from its status and its `Retry-After` header: a
/// status below 400 is accepted, a rate limit is retried (after the
/// indicated delay), any other error fails.
pub fn response_action(status: u16, retry_after: Option<&str>) -> (r: ResponseAction)
    ensures
        status < 400 ==> r == ResponseAction::Accept,
        status == TOO_MANY_REQUESTS ==> r == (ResponseAction::Retry {
            delay_secs: match retry_after {
                Some(v) => spec_parse_u64(v@),
                None => None,
            },
        }),
        status >= 400 && status != TOO_MANY_REQUESTS ==> r == ResponseAction::Fail,
{
    if status < 400 {
        ResponseAction::Accept
    } else if status == TOO_MANY_REQUESTS {
        ResponseAction::Retry { delay_secs: get_retry_duration(retry_after) }
    } else {
        ResponseAction::Fail
    }
}

} // verus!
