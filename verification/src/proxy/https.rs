//! The dispatcher of the TLS listener.

use crate::config::model::{lookup, RoutingTable};
use crate::proxy::http::{ChallengeDecision, DEFAULT_BACKEND};
use crate::proxy::utils;
use crate::proxy::utils::{Scheme, Upstream, UpstreamView};
use vstd::prelude::*;
use vstd::string::*;

verus! {

/// The dispatcher of the TLS listener: it routes every request by its
/// hostname. Domain-ownership challenges come over plain HTTP only, so it
/// intercepts nothing.
#[derive(Debug, Clone, PartialEq, Eq)]
pub struct HttpsProxy {
    /// Where requests go that no route matches.
    pub default_backend: String,
}

impl HttpsProxy {
    /// A dispatcher with the default backend.
    pub fn new() -> (r: HttpsProxy)
        ensures
            r.default_backend@ == DEFAULT_BACKEND@,
    {
        HttpsProxy { default_backend: String::from_str(DEFAULT_BACKEND) }
    }

    /// Every request is routed: none is answered by the listener itself.
    pub fn request_filter(&self, path: &str) -> (r: ChallengeDecision)
        ensures
            r is Continue,
    {
        ChallengeDecision::Continue
    }

    /// Decides where a request for `hostname` goes, as the plain-HTTP
    /// dispatcher does, with the headers of this listener.
    pub fn upstream_peer(&self, servers: &RoutingTable, hostname: &str) -> (r: Upstream)
        ensures
            r@ == utils::dispatch(
                lookup(servers@, hostname@),
                hostname@,
                self.default_backend@,
                Scheme::Https,
            ),
            !servers@.contains_key(hostname@) ==> r@ == (UpstreamView::Forward {
                target: utils::default_target(self.default_backend@),
            }),
    {
        utils::select_upstream(servers, hostname, self.default_backend.as_str(), Scheme::Https)
    }
}

} // verus!
