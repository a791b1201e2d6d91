//! The direct transport: what this crate decides before a native client
//! carries the request out.

use crate::http_types::{header_entries, method_text, url_text};
use crate::model::Request;
use http::HeaderMap;
use vstd::prelude::*;

verus! {

/// What the client does with a redirect.
#[derive(Clone, Copy, Debug, PartialEq, Eq, Structural)]
pub enum RedirectPolicy {
    /// Follow it, as the client does by default.
    Follow,
    /// Follow none: a redirect is the response.
    Stop,
}

/// The policy for one request. It is chosen per request, from its `follow`
/// flag alone.
pub fn redirect_policy(follow: bool) -> (policy: RedirectPolicy)
    ensures
        policy == (if follow {
            RedirectPolicy::Follow
        } else {
            RedirectPolicy::Stop
        }),
{
    if follow {
        RedirectPolicy::Follow
    } else {
        RedirectPolicy::Stop
    }
}

/// A request made ready for the client: the policy for its client, and what
/// is sent. It is sent once.
pub struct Dispatch {
    pub policy: RedirectPolicy,
    pub method: http::Method,
    pub url: url::Url,
    pub headers: HeaderMap,
    /// The body to send; empty where the request has none.
    pub body: String,
}

/// The text of a body that may be missing.
pub open spec fn body_text(body: Option<Seq<char>>) -> Seq<char> {
    match body {
        Some(text) => text,
        None => Seq::empty(),
    }
}

/// Makes `request` ready for the client: method, URL and headers as they
/// are, the body or an empty one, and the redirect policy that `follow`
/// asks for.
pub fn dispatch(request: Request) -> (plan: Dispatch)
    ensures
        plan.policy == (if request.follow {
            RedirectPolicy::Follow
        } else {
            RedirectPolicy::Stop
        }),
        method_text(plan.method) == request@.method,
        url_text(plan.url) == request@.url,
        header_entries(plan.headers) == request@.headers,
        plan.body@ == body_text(request@.body),
{
    let body = match request.body {
        Some(text) => text,
        None => String::new(),
    };
    Dispatch {
        policy: redirect_policy(request.follow),
        method: request.method,
        url: request.url,
        headers: request.headers,
        body,
    }
}

} // verus!
