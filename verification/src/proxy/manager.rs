//! The administrative protocol: routes are listed, added, updated and
//! removed, and certificates requested, by HTTP method and path.
//!
//! A request is decided here and carried out by the caller: where a
//! decision changes the table, the change is applied at once and the
//! caller is told to persist the new snapshot; the answer to the client
//! is made from how persisting went.

use crate::config::model::{
    has_key, remove_pairs, upsert_pairs, Configuration, Pair, RoutingTable, ServerMapping,
};
use crate::cert::issuer::{not_found_view, CertificateIssuer, CertificateStatus};
use crate::proxy::utils::{
    is_separator_noise, separator_noise, trim_separator_noise, without_noise, ProxyHeader,
};
use crate::text;
use vstd::prelude::*;
use vstd::string::*;

verus! {

/// The status of a request that was carried out.
pub const STATUS_OK: u16 = 200;

/// The status of a request that names no domain, no backend, or nothing
/// that can be read.
pub const STATUS_BAD_REQUEST: u16 = 400;

/// The status of a removal of a domain that has no route.
pub const STATUS_NOT_FOUND: u16 = 404;

/// The status of a request with a method that the endpoint does not take.
pub const STATUS_METHOD_NOT_ALLOWED: u16 = 405;

/// The status of a request that the gateway failed to carry out.
pub const STATUS_INTERNAL_SERVER_ERROR: u16 = 500;

/// The first path segment of the certificate endpoints.
pub const CERTIFICATES_SEGMENT: &'static str = "certificates";

/// One route, as a listing shows it.
#[derive(Debug, Clone, PartialEq, Eq)]
pub struct DomainMapping {
    pub from: String,
    pub to: String,
}

impl View for DomainMapping {
    type V = Pair;

    open spec fn view(&self) -> Pair {
        (self.from@, self.to@)
    }
}

impl DeepView for DomainMapping {
    type V = Pair;

    open spec fn deep_view(&self) -> Pair {
        (self.from@, self.to@)
    }
}

/// The envelope of every answer of the route endpoints.
#[derive(Debug, Clone, PartialEq, Eq)]
pub struct ApiResponse {
    pub status: String,
    pub error: Option<String>,
    pub message: Option<String>,
    pub mappings: Option<Vec<DomainMapping>>,
}

/// The model of an `ApiResponse`.
pub struct ResponseView {
    pub status: Seq<char>,
    pub error: Option<Seq<char>>,
    pub message: Option<Seq<char>>,
    pub mappings: Option<Seq<Pair>>,
}

impl View for ApiResponse {
    type V = ResponseView;

    open spec fn view(&self) -> ResponseView {
        ResponseView {
            status: self.status@,
            error: self.error.deep_view(),
            message: self.message.deep_view(),
            mappings: self.mappings.deep_view(),
        }
    }
}

/// A change of the table that is applied in memory and waits to be
/// persisted.
#[derive(Debug, Clone, PartialEq, Eq)]
pub enum Mutation {
    Upsert { domain: String, backend: String },
    Delete { domain: String },
}

/// The model of a `Mutation`.
pub enum MutationView {
    Upsert { domain: Seq<char>, backend: Seq<char> },
    Delete { domain: Seq<char> },
}

impl View for Mutation {
    type V = MutationView;

    open spec fn view(&self) -> MutationView {
        match self {
            Mutation::Upsert { domain, backend } => MutationView::Upsert {
                domain: domain@,
                backend: backend@,
            },
            Mutation::Delete { domain } => MutationView::Delete { domain: domain@ },
        }
    }
}

/// What the caller does next for an administrative request.
#[derive(Debug, Clone, PartialEq, Eq)]
pub enum ManagerStep {
    /// Answer with `status` and `response`; nothing else is to be done.
    Respond { status: u16, response: ApiResponse },
    /// The table was changed: persist `snapshot`, then answer with what
    /// `persist_reply` makes of the outcome.
    Persist { snapshot: Vec<ServerMapping>, change: Mutation },
    /// Read the request body as a certificate request and run the
    /// issuance flow.
    IssueCertificate,
    /// Report on the certificate of `domain`.
    CheckCertificate { domain: String },
}

/// The model of a `ManagerStep`.
pub enum StepView {
    Respond { status: u16, response: ResponseView },
    Persist { snapshot: Seq<Pair>, change: MutationView },
    IssueCertificate,
    CheckCertificate { domain: Seq<char> },
}

impl View for ManagerStep {
    type V = StepView;

    open spec fn view(&self) -> StepView {
        match self {
            ManagerStep::Respond { status, response } => StepView::Respond {
                status: *status,
                response: response@,
            },
            ManagerStep::Persist { snapshot, change } => StepView::Persist {
                snapshot: snapshot.deep_view(),
                change: change@,
            },
            ManagerStep::IssueCertificate => StepView::IssueCertificate,
            ManagerStep::CheckCertificate { domain } => StepView::CheckCertificate {
                domain: domain@,
            },
        }
    }
}

/// The envelope of a success that carries nothing.
pub open spec fn success_view() -> ResponseView {
    ResponseView { status: "success"@, error: None, message: None, mappings: None }
}

/// The envelope of an error with its text.
pub open spec fn error_view(text: Seq<char>) -> ResponseView {
    ResponseView { status: "error"@, error: Some(text), message: None, mappings: None }
}

/// The envelope of a listing.
pub open spec fn listing_view(pairs: Seq<Pair>) -> ResponseView {
    ResponseView { status: "success"@, error: None, message: None, mappings: Some(pairs) }
}

/// A refusal: an error envelope under a status.
pub open spec fn refusal(status: u16, text: Seq<char>) -> StepView {
    StepView::Respond { status, response: error_view(text) }
}

/// Segment `i` of a path, or the empty string where the path is shorter.
pub open spec fn segment(segments: Seq<Seq<char>>, i: int) -> Seq<char> {
    if 0 <= i < segments.len() {
        segments[i]
    } else {
        Seq::empty()
    }
}

/// The domain that an upsert names: the first segment after the root.
pub open spec fn upsert_domain(segments: Seq<Seq<char>>) -> Seq<char> {
    segment(segments, 1)
}

/// The backend that an upsert names: the second segment after the root,
/// without trailing separator noise.
pub open spec fn upsert_backend(segments: Seq<Seq<char>>) -> Seq<char> {
    without_noise(segment(segments, 2))
}

/// Whether `c` may trail the domain of a removal: separator noise, or a
/// slash.
pub open spec fn is_domain_noise(c: char) -> bool {
    is_separator_noise(c) || c == '/'
}

/// The domain that a removal names: the first segment after the root,
/// without trailing separator noise and slashes.
pub open spec fn removal_domain(segments: Seq<Seq<char>>) -> Seq<char> {
    text::trim_end_where(segment(segments, 1), |c: char| is_domain_noise(c))
}

/// The table after an upsert request, and the step that follows it. An
/// empty domain or backend is refused and changes nothing.
pub open spec fn add_update_step(pairs: Seq<Pair>, segments: Seq<Seq<char>>) -> (
    Seq<Pair>,
    StepView,
) {
    let domain = upsert_domain(segments);
    let backend = upsert_backend(segments);
    if domain.len() == 0 || backend.len() == 0 {
        (pairs, refusal(STATUS_BAD_REQUEST, "Invalid domain or backend address"@))
    } else {
        let after = upsert_pairs(pairs, domain, backend);
        (after, StepView::Persist { snapshot: after, change: MutationView::Upsert { domain, backend } })
    }
}

/// The text that reports a domain without a route.
pub open spec fn not_found_text(domain: Seq<char>) -> Seq<char> {
    "Domain "@ + domain + " not found"@
}

/// The table after a removal request, and the step that follows it. A
/// missing or empty domain is refused; a domain without a route is
/// reported as not found; both change nothing.
pub open spec fn delete_step(pairs: Seq<Pair>, segments: Seq<Seq<char>>) -> (Seq<Pair>, StepView) {
    let domain = removal_domain(segments);
    if segments.len() < 2 {
        (pairs, refusal(STATUS_BAD_REQUEST, "Missing domain parameter"@))
    } else if domain.len() == 0 {
        (pairs, refusal(STATUS_BAD_REQUEST, "Invalid domain"@))
    } else if !has_key(pairs, domain) {
        (pairs, refusal(STATUS_NOT_FOUND, not_found_text(domain)))
    } else {
        let after = remove_pairs(pairs, domain);
        (after, StepView::Persist { snapshot: after, change: MutationView::Delete { domain } })
    }
}

/// The step for a request to the certificate endpoints.
pub open spec fn certificate_step(method: Seq<char>, segments: Seq<Seq<char>>) -> StepView {
    if method == "POST"@ {
        StepView::IssueCertificate
    } else if method == "GET"@ {
        if segments.len() < 3 {
            refusal(STATUS_BAD_REQUEST, "Domain parameter required"@)
        } else {
            StepView::CheckCertificate { domain: segments[2] }
        }
    } else {
        refusal(STATUS_METHOD_NOT_ALLOWED, "Method not allowed for certificates endpoint"@)
    }
}

/// Whether a path addresses the certificate endpoints.
pub open spec fn is_certificate_path(segments: Seq<Seq<char>>) -> bool {
    segments.len() > 1 && text::has_prefix(segments[1], CERTIFICATES_SEGMENT@)
}

/// The segments of a certificate path, each without trailing commas.
pub open spec fn clean_segments(segments: Seq<Seq<char>>) -> Seq<Seq<char>> {
    segments.map_values(|s: Seq<char>| text::trim_end_of(s, ","@))
}

/// The table after a request with `method` for `pathname`, and the step
/// that follows it.
pub open spec fn route_step(pairs: Seq<Pair>, method: Seq<char>, pathname: Seq<char>) -> (
    Seq<Pair>,
    StepView,
) {
    let segments = text::split_on(pathname, '/');
    if is_certificate_path(segments) {
        (pairs, certificate_step(method, clean_segments(segments)))
    } else if method == "PUT"@ || method == "POST"@ {
        add_update_step(pairs, segments)
    } else if method == "DELETE"@ {
        delete_step(pairs, segments)
    } else if method == "GET"@ {
        (pairs, StepView::Respond { status: STATUS_OK, response: listing_view(pairs) })
    } else {
        (pairs, refusal(STATUS_METHOD_NOT_ALLOWED, "Method not allowed"@))
    }
}

/// The table after the request that `summary` describes, and the step that
/// follows it. The first word of a summary is the method, the second the
/// path.
pub open spec fn request_step(pairs: Seq<Pair>, summary: Seq<char>) -> (Seq<Pair>, StepView) {
    let parts = text::words(summary);
    route_step(pairs, segment(parts, 0), segment(parts, 1))
}

/// Whether a stored document still lists `domain`.
pub open spec fn still_listed(stored: Option<Seq<Pair>>, domain: Seq<char>) -> bool {
    match stored {
        Some(pairs) => has_key(pairs, domain),
        None => false,
    }
}

/// The answer after a change was persisted, or was not.
pub open spec fn persist_outcome(
    change: MutationView,
    failure: Option<Seq<char>>,
    stored: Option<Seq<Pair>>,
) -> (u16, ResponseView) {
    match change {
        MutationView::Upsert { .. } => match failure {
            Some(reason) => (
                STATUS_INTERNAL_SERVER_ERROR,
                error_view("Failed to persist configuration: "@ + reason),
            ),
            None => (STATUS_OK, success_view()),
        },
        MutationView::Delete { domain } => match failure {
            Some(reason) => (
                STATUS_INTERNAL_SERVER_ERROR,
                error_view("Failed to persist configuration change: "@ + reason),
            ),
            None => if still_listed(stored, domain) {
                (
                    STATUS_INTERNAL_SERVER_ERROR,
                    error_view("Domain was removed from memory but still exists in config file"@),
                )
            } else {
                (STATUS_OK, success_view())
            },
        },
    }
}

/// A removal of a domain without a route is reported as not found: the
/// table stays as it is and nothing is to be persisted.
pub proof fn lemma_delete_absent(pairs: Seq<Pair>, segments: Seq<Seq<char>>)
    requires
        segments.len() >= 2,
        removal_domain(segments).len() > 0,
        !has_key(pairs, removal_domain(segments)),
    ensures
        delete_step(pairs, segments) == (
            pairs,
            refusal(STATUS_NOT_FOUND, not_found_text(removal_domain(segments))),
        ),
{
}

/// Why a certificate request could not be taken up.
#[derive(Clone, Copy, Debug, PartialEq, Eq, Structural)]
pub enum RequestFailure {
    /// The body of the request could not be read.
    BodyUnreadable,
    /// The body is no certificate request.
    InvalidFormat,
    /// The issuer could not be set up.
    IssuerUnavailable,
}

/// The answer to a certificate request that could not be taken up.
pub open spec fn failure_outcome(kind: RequestFailure, reason: Seq<char>) -> (u16, ResponseView) {
    match kind {
        RequestFailure::BodyUnreadable => (
            STATUS_BAD_REQUEST,
            error_view("Failed to read request body: "@ + reason),
        ),
        RequestFailure::InvalidFormat => (
            STATUS_BAD_REQUEST,
            error_view("Invalid request format: "@ + reason),
        ),
        RequestFailure::IssuerUnavailable => (
            STATUS_INTERNAL_SERVER_ERROR,
            error_view("Certificate issuer initialization failed: "@ + reason),
        ),
    }
}

/// The headers of every answer of the endpoint: the body is JSON, and the
/// connection is closed after it, so that no client keeps a worker.
pub open spec fn reply_headers() -> Seq<(Seq<char>, Seq<char>)> {
    seq![("content-type"@, "application/json"@), ("connection"@, "close"@)]
}

/// The administrative endpoint.
#[derive(Debug, Clone, PartialEq, Eq)]
pub struct ManagerProxy {
    /// The directory of the issuance tool.
    pub certbot_dir: String,
    /// The directory that receives issued certificates.
    pub output_dir: String,
}

impl ManagerProxy {
    /// An endpoint with the default directories.
    pub fn new() -> (r: ManagerProxy)
        ensures
            r.certbot_dir@ == "certbot/letsencrypt"@,
            r.output_dir@ == "certs"@,
    {
        ManagerProxy {
            certbot_dir: String::from_str("certbot/letsencrypt"),
            output_dir: String::from_str("certs"),
        }
    }

    /// The envelope of a success that carries nothing.
    pub fn success_response() -> (r: ApiResponse)
        ensures
            r@ == success_view(),
    {
        ApiResponse {
            status: String::from_str("success"),
            error: None,
            message: None,
            mappings: None,
        }
    }

    /// The envelope of an error with its text.
    pub fn error_response(message: &str) -> (r: ApiResponse)
        ensures
            r@ == error_view(message@),
    {
        ApiResponse {
            status: String::from_str("error"),
            error: Some(String::from_str(message)),
            message: None,
            mappings: None,
        }
    }

    /// A refusal: an error envelope under a status.
    fn refuse(status: u16, message: &str) -> (r: ManagerStep)
        ensures
            r@ == refusal(status, message@),
    {
        ManagerStep::Respond { status, response: Self::error_response(message) }
    }

    /// `domain` without the separator noise and slashes that trail it.
    fn trim_domain(domain: &str) -> (r: String)
        ensures
            r@ == text::trim_end_where(domain@, |c: char| is_domain_noise(c)),
    {
        let v = text::to_chars(domain);
        let mut k: usize = v.len();
        while k > 0 && (separator_noise(v[k - 1]) || v[k - 1] == '/')
            invariant
                v@ == domain@,
                k <= v.len(),
                forall|j: int| k <= j < v.len() ==> is_domain_noise(#[trigger] v@[j]),
            decreases k,
        {
            k -= 1;
        }
        proof {
            text::lemma_trim_end_where(domain@, |c: char| is_domain_noise(c), k as int);
        }
        String::from_str(domain.substring_char(0, k))
    }

    /// The domain and the backend that an upsert names.
    pub fn extract_domain_and_backend(&self, path_segments: &[String]) -> (r: (String, String))
        ensures
            r.0@ == upsert_domain(path_segments.deep_view()),
            r.1@ == upsert_backend(path_segments.deep_view()),
    {
        let from = if path_segments.len() > 1 {
            path_segments[1].clone()
        } else {
            String::new()
        };
        let to = if path_segments.len() > 2 {
            trim_separator_noise(path_segments[2].as_str())
        } else {
            proof {
                assert(without_noise(Seq::<char>::empty()) == Seq::<char>::empty());
            }
            String::new()
        };
        (from, to)
    }

    /// Adds or updates a route. The change is applied to the table before
    /// anything is persisted.
    pub fn handle_add_update_mapping(
        &self,
        servers: &mut RoutingTable,
        path_segments: &[String],
    ) -> (r: ManagerStep)
        ensures
            (final(servers).pairs(), r@) == add_update_step(
                old(servers).pairs(),
                path_segments.deep_view(),
            ),
            r is Persist ==> final(servers)@ == old(servers)@.insert(
                upsert_domain(path_segments.deep_view()),
                upsert_backend(path_segments.deep_view()),
            ),
    {
        let (from, to) = self.extract_domain_and_backend(path_segments);
        if text::is_empty(from.as_str()) || text::is_empty(to.as_str()) {
            return Self::refuse(STATUS_BAD_REQUEST, "Invalid domain or backend address");
        }
        servers.upsert(from.clone(), to.clone());
        let snapshot = servers.snapshot();
        ManagerStep::Persist { snapshot, change: Mutation::Upsert { domain: from, backend: to } }
    }

    /// Removes a route. A domain without a route is reported as not found:
    /// the table is not touched and nothing is to be persisted.
    pub fn handle_delete_mapping(&self, servers: &mut RoutingTable, path_segments: &[String]) -> (r:
        ManagerStep)
        ensures
            (final(servers).pairs(), r@) == delete_step(
                old(servers).pairs(),
                path_segments.deep_view(),
            ),
            !(r is Persist) ==> final(servers).pairs() == old(servers).pairs(),
            r is Persist ==> final(servers)@ == old(servers)@.remove(
                removal_domain(path_segments.deep_view()),
            ),
    {
        if path_segments.len() < 2 {
            return Self::refuse(STATUS_BAD_REQUEST, "Missing domain parameter");
        }
        let from = Self::trim_domain(path_segments[1].as_str());
        if text::is_empty(from.as_str()) {
            return Self::refuse(STATUS_BAD_REQUEST, "Invalid domain");
        }
        if !servers.contains_key(from.as_str()) {
            let message = String::from_str("Domain ").concat(from.as_str()).concat(" not found");
            return Self::refuse(STATUS_NOT_FOUND, message.as_str());
        }
        servers.remove(from.as_str());
        let snapshot = servers.snapshot();
        ManagerStep::Persist { snapshot, change: Mutation::Delete { domain: from } }
    }

    /// Lists every route of the table.
    pub fn handle_list_mappings(&self, servers: &RoutingTable) -> (r: (u16, ApiResponse))
        ensures
            r.0 == STATUS_OK,
            r.1@ == listing_view(servers.pairs()),
    {
        let routes = servers.snapshot();
        let mut mappings: Vec<DomainMapping> = Vec::new();
        let mut i: usize = 0;
        while i < routes.len()
            invariant
                i <= routes.len(),
                mappings.deep_view() == routes.deep_view().take(i as int),
            decreases routes.len() - i,
        {
            let ghost before = mappings.deep_view();
            let entry = DomainMapping { from: routes[i].from.clone(), to: routes[i].to.clone() };
            mappings.push(entry);
            proof {
                assert(mappings.deep_view() == before.push(routes@[i as int]@));
            }
            i += 1;
        }
        proof {
            assert(routes.deep_view().take(i as int) == routes.deep_view());
        }
        (
            STATUS_OK,
            ApiResponse {
                status: String::from_str("success"),
                error: None,
                message: None,
                mappings: Some(mappings),
            },
        )
    }

    /// Decides a request to the certificate endpoints: a `POST` starts the
    /// issuance flow, a `GET` with a domain asks for a report, and every
    /// other method is refused.
    pub fn handle_certificate_request(&self, method: &str, path_segments: &[String]) -> (r:
        ManagerStep)
        ensures
            r@ == certificate_step(method@, path_segments.deep_view()),
    {
        if text::equal(method, "POST") {
            ManagerStep::IssueCertificate
        } else if text::equal(method, "GET") {
            if path_segments.len() < 3 {
                Self::refuse(STATUS_BAD_REQUEST, "Domain parameter required")
            } else {
                ManagerStep::CheckCertificate { domain: path_segments[2].clone() }
            }
        } else {
            Self::refuse(STATUS_METHOD_NOT_ALLOWED, "Method not allowed for certificates endpoint")
        }
    }

    /// Decides a request by its method and path.
    pub fn route_request(&self, servers: &mut RoutingTable, method: &str, pathname: &str) -> (r:
        ManagerStep)
        ensures
            (final(servers).pairs(), r@) == route_step(old(servers).pairs(), method@, pathname@),
            !(r is Persist) ==> final(servers).pairs() == old(servers).pairs(),
    {
        let path_segments = text::split(pathname, '/');
        if path_segments.len() > 1 && text::starts_with(
            path_segments[1].as_str(),
            CERTIFICATES_SEGMENT,
        ) {
            let mut cleaned: Vec<String> = Vec::new();
            let mut i: usize = 0;
            while i < path_segments.len()
                invariant
                    i <= path_segments.len(),
                    cleaned.deep_view() == clean_segments(path_segments.deep_view().take(i as int)),
                decreases path_segments.len() - i,
            {
                let ghost before = cleaned.deep_view();
                cleaned.push(text::trim_end_matches(path_segments[i].as_str(), ","));
                proof {
                    assert(cleaned.deep_view() == before.push(
                        text::trim_end_of(path_segments@[i as int]@, ","@),
                    ));
                    assert(cleaned.deep_view() == clean_segments(
                        path_segments.deep_view().take(i + 1),
                    ));
                }
                i += 1;
            }
            proof {
                assert(path_segments.deep_view().take(i as int) == path_segments.deep_view());
            }
            return self.handle_certificate_request(method, cleaned.as_slice());
        }
        if text::equal(method, "PUT") || text::equal(method, "POST") {
            self.handle_add_update_mapping(servers, path_segments.as_slice())
        } else if text::equal(method, "DELETE") {
            self.handle_delete_mapping(servers, path_segments.as_slice())
        } else if text::equal(method, "GET") {
            let (status, response) = self.handle_list_mappings(servers);
            ManagerStep::Respond { status, response }
        } else {
            Self::refuse(STATUS_METHOD_NOT_ALLOWED, "Method not allowed")
        }
    }

    /// Decides the request that a request summary describes.
    pub fn request_filter(&self, servers: &mut RoutingTable, summary: &str) -> (r: ManagerStep)
        ensures
            (final(servers).pairs(), r@) == request_step(old(servers).pairs(), summary@),
            !(r is Persist) ==> final(servers).pairs() == old(servers).pairs(),
    {
        let parts = text::split_whitespace(summary);
        let method = if parts.len() > 0 {
            parts[0].clone()
        } else {
            String::new()
        };
        let pathname = if parts.len() > 1 {
            parts[1].clone()
        } else {
            String::new()
        };
        self.route_request(servers, method.as_str(), pathname.as_str())
    }

    /// The answer after the caller tried to persist a change. The change
    /// stays applied in memory whatever the outcome. `failure` is the
    /// reason where persisting failed; `stored` is the document read back
    /// after a removal, where it could be read.
    pub fn persist_reply(
        &self,
        change: &Mutation,
        failure: Option<String>,
        stored: Option<&Configuration>,
    ) -> (r: (u16, ApiResponse))
        ensures
            (r.0, r.1@) == persist_outcome(
                change@,
                failure.deep_view(),
                match stored {
                    Some(document) => Some(document.pairs()),
                    None => None,
                },
            ),
    {
        match change {
            Mutation::Upsert { .. } => match failure {
                Some(reason) => {
                    let message = String::from_str("Failed to persist configuration: ").concat(
                        reason.as_str(),
                    );
                    (STATUS_INTERNAL_SERVER_ERROR, Self::error_response(message.as_str()))
                },
                None => (STATUS_OK, Self::success_response()),
            },
            Mutation::Delete { domain } => match failure {
                Some(reason) => {
                    let message = String::from_str(
                        "Failed to persist configuration change: ",
                    ).concat(reason.as_str());
                    (STATUS_INTERNAL_SERVER_ERROR, Self::error_response(message.as_str()))
                },
                None => {
                    let listed = match stored {
                        Some(document) => document.lists(domain.as_str()),
                        None => false,
                    };
                    if listed {
                        (
                            STATUS_INTERNAL_SERVER_ERROR,
                            Self::error_response(
                                "Domain was removed from memory but still exists in config file",
                            ),
                        )
                    } else {
                        (STATUS_OK, Self::success_response())
                    }
                },
            },
        }
    }

    /// The headers of every answer of the endpoint.
    pub fn response_headers() -> (r: Vec<ProxyHeader>)
        ensures
            r.deep_view() == reply_headers(),
    {
        let mut r: Vec<ProxyHeader> = Vec::new();
        r.push(
            ProxyHeader {
                name: String::from_str("content-type"),
                value: String::from_str("application/json"),
            },
        );
        r.push(
            ProxyHeader { name: String::from_str("connection"), value: String::from_str("close") },
        );
        proof {
            assert(r.deep_view() == reply_headers());
        }
        r
    }

    /// The answer to a certificate request that could not be taken up.
    pub fn certificate_failure(kind: RequestFailure, reason: &str) -> (r: (u16, ApiResponse))
        ensures
            (r.0, r.1@) == failure_outcome(kind, reason@),
    {
        match kind {
            RequestFailure::BodyUnreadable => {
                let message = String::from_str("Failed to read request body: ").concat(reason);
                (STATUS_BAD_REQUEST, Self::error_response(message.as_str()))
            },
            RequestFailure::InvalidFormat => {
                let message = String::from_str("Invalid request format: ").concat(reason);
                (STATUS_BAD_REQUEST, Self::error_response(message.as_str()))
            },
            RequestFailure::IssuerUnavailable => {
                let message = String::from_str(
                    "Certificate issuer initialization failed: ",
                ).concat(reason);
                (STATUS_INTERNAL_SERVER_ERROR, Self::error_response(message.as_str()))
            },
        }
    }

    /// The status under which the record of an issuance is sent: 400
    /// where the record carries an error, 200 otherwise.
    pub fn issue_reply_status(record: &CertificateStatus) -> (r: u16)
        ensures
            r == (if record.error is Some {
                STATUS_BAD_REQUEST
            } else {
                STATUS_OK
            }),
    {
        match record.error {
            Some(_) => STATUS_BAD_REQUEST,
            None => STATUS_OK,
        }
    }

    /// The answer to a check: the record that was found, or the record of
    /// a certificate not found; always under 200.
    pub fn check_reply(domain: &str, found: Option<CertificateStatus>) -> (r: (
        u16,
        CertificateStatus,
    ))
        ensures
            r.0 == STATUS_OK,
            r.1@ == (match found {
                Some(record) => record@,
                None => not_found_view(domain@),
            }),
    {
        match found {
            Some(record) => (STATUS_OK, record),
            None => (STATUS_OK, CertificateIssuer::not_found(domain)),
        }
    }

    /// The answer when the table could not be locked.
    pub fn lock_failure() -> (r: (u16, ApiResponse))
        ensures
            r.0 == STATUS_INTERNAL_SERVER_ERROR,
            r.1@ == error_view("Failed to acquire lock on server configuration"@),
    {
        (
            STATUS_INTERNAL_SERVER_ERROR,
            Self::error_response("Failed to acquire lock on server configuration"),
        )
    }
}

} // verus!
