//! The dispatcher of the plain-HTTP listener.

use crate::config::model::{lookup, RoutingTable};
use crate::proxy::utils;
use crate::proxy::utils::{Scheme, Upstream, UpstreamView};
use crate::text;
use vstd::prelude::*;
use vstd::string::*;

verus! {

/// The path prefix of a domain-ownership challenge.
pub const CHALLENGE_PREFIX: &'static str = "/.well-known/acme-challenge/";

/// The backend for requests that no route matches.
pub const DEFAULT_BACKEND: &'static str = "127.0.0.1:5500";

/// The directory under which the issuance tool leaves its proofs.
pub const DEFAULT_WEBROOT: &'static str = "/var/www/html";

/// The dispatcher of the plain-HTTP listener: it answers domain-ownership
/// challenges itself and routes every other request by its hostname.
#[derive(Debug, Clone, PartialEq, Eq)]
pub struct HttpProxy {
    /// Where requests go that no route matches.
    pub default_backend: String,
    /// The directory that holds the challenge proofs.
    pub webroot: String,
}

/// What the listener does with a request before it is routed.
#[derive(Debug, Clone, PartialEq, Eq)]
pub enum ChallengeDecision {
    /// The request is no challenge: route it.
    Continue,
    /// The request is a challenge that names no token: answer 404.
    NotFound,
    /// The request is a challenge for `token`: read `file` and answer with
    /// what it holds.
    ReadProof { token: String, file: String },
}

/// The answer to a challenge.
#[derive(Debug, Clone, PartialEq, Eq)]
pub struct ChallengeReply {
    pub status: u16,
    pub content_type: Option<String>,
    pub body: Option<String>,
}

/// Whether a request path is a domain-ownership challenge.
pub open spec fn is_challenge(path: Seq<char>) -> bool {
    text::has_prefix(path, CHALLENGE_PREFIX@)
}

/// The token of a challenge: the last segment of its path.
pub open spec fn challenge_token(path: Seq<char>) -> Seq<char> {
    text::split_on(path, '/').last()
}

/// The file that holds the proof for `token`.
pub open spec fn proof_file(webroot: Seq<char>, token: Seq<char>) -> Seq<char> {
    webroot + CHALLENGE_PREFIX@ + token
}

impl HttpProxy {
    /// A dispatcher with the default backend and webroot.
    pub fn new() -> (r: HttpProxy)
        ensures
            r.default_backend@ == DEFAULT_BACKEND@,
            r.webroot@ == DEFAULT_WEBROOT@,
    {
        HttpProxy {
            default_backend: String::from_str(DEFAULT_BACKEND),
            webroot: String::from_str(DEFAULT_WEBROOT),
        }
    }

    /// Decides whether a request is a domain-ownership challenge, and
    /// which proof answers it. A challenge never reaches the routing
    /// table.
    pub fn request_filter(&self, path: &str) -> (r: ChallengeDecision)
        ensures
            !is_challenge(path@) ==> r is Continue,
            is_challenge(path@) && challenge_token(path@).len() == 0 ==> r is NotFound,
            is_challenge(path@) && challenge_token(path@).len() > 0 ==> (r matches ChallengeDecision::ReadProof {
                token,
                file,
            } && token@ == challenge_token(path@) && file@ == proof_file(
                self.webroot@,
                challenge_token(path@),
            )),
    {
        if !text::starts_with(path, CHALLENGE_PREFIX) {
            return ChallengeDecision::Continue;
        }
        let mut segments = text::split(path, '/');
        let ghost pieces = segments.deep_view();
        let token = match segments.pop() {
            Some(token) => token,
            None => String::new(),
        };
        proof {
            assert(token@ == pieces.last());
        }
        if token.as_str().unicode_len() == 0 {
            return ChallengeDecision::NotFound;
        }
        let file = self.webroot.clone().concat(CHALLENGE_PREFIX).concat(token.as_str());
        ChallengeDecision::ReadProof { token, file }
    }

    /// The answer to a challenge, given what the proof file held: the proof
    /// as plain text, or 404 where the file could not be read.
    pub fn challenge_response(&self, proof_text: Option<String>) -> (r: ChallengeReply)
        ensures
            proof_text is Some ==> r.status == 200 && r.content_type.deep_view() == Some(
                "text/plain"@,
            ) && r.body.deep_view() == proof_text.deep_view(),
            proof_text is None ==> r.status == 404 && r.content_type is None && r.body is None,
    {
        match proof_text {
            Some(text) => ChallengeReply {
                status: 200,
                content_type: Some(String::from_str("text/plain")),
                body: Some(text),
            },
            None => ChallengeReply { status: 404, content_type: None, body: None },
        }
    }

    /// Decides where a request for `hostname` goes: to the default backend
    /// where the table has no route for it, to the stored address where
    /// that is a literal one, and otherwise to the service that the stored
    /// target names.
    pub fn upstream_peer(&self, servers: &RoutingTable, hostname: &str) -> (r: Upstream)
        ensures
            r@ == utils::dispatch(
                lookup(servers@, hostname@),
                hostname@,
                self.default_backend@,
                Scheme::Http,
            ),
            !servers@.contains_key(hostname@) ==> r@ == (UpstreamView::Forward {
                target: utils::default_target(self.default_backend@),
            }),
    {
        utils::select_upstream(servers, hostname, self.default_backend.as_str(), Scheme::Http)
    }
}

} // verus!
