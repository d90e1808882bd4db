//! Backend targets: how a stored target is read, cleaned and resolved.

use crate::config::model::{lookup, RoutingTable};
use crate::text;
use vstd::prelude::*;
use vstd::string::*;

verus! {

/// The port of a target that names none, or none that can be read.
pub const DEFAULT_PORT: u16 = 80;

/// The pattern that finds the host in a request summary: `Host:`, optional
/// white space, then the run of characters up to white space or a comma.
pub const HOST_PATTERN: &'static str = r"Host:\s*([^\s,]+)";

/// The error of `regex::Regex::new`.
#[verifier::external_type_specification]
#[verifier::external_body]
pub struct ExRegexError(regex::Error);

/// Whether `regex::Regex::new` accepts `pattern`.
pub uninterp spec fn pattern_compiles(pattern: Seq<char>) -> bool;

/// What capture group `group` holds in the leftmost match of `pattern` in
/// `haystack`, as `regex::Regex::captures` finds it; `None` when there is
/// no match or the group took no part in it.
pub uninterp spec fn first_capture(pattern: Seq<char>, haystack: Seq<char>, group: int) -> Option<
    Seq<char>,
>;

/// Compiles `pattern` with `regex::Regex::new`, searches `haystack` with
/// `Regex::captures` and copies out, with `Captures::get` and
/// `Match::as_str`, the text of capture group `group`.
///
/// Trusted: the result is `Err` exactly when the pattern does not compile,
/// and otherwise the text that `first_capture` names. Nothing is claimed
/// about what that text is.
#[verifier::external_body]
fn capture_group(pattern: &str, haystack: &str, group: usize) -> (r: Result<
    Option<String>,
    regex::Error,
>)
    ensures
        r is Ok == pattern_compiles(pattern@),
        r matches Ok(found) ==> found.deep_view() == first_capture(
            pattern@,
            haystack@,
            group as int,
        ),
{
    match regex::Regex::new(pattern) {
        Ok(re) => Ok(
            match re.captures(haystack) {
                Some(caps) => caps.get(group).map(|m| m.as_str().to_string()),
                None => None,
            },
        ),
        Err(e) => Err(e),
    }
}

/// The hostname that a request summary names: what the host pattern
/// captures in it.
pub open spec fn named_hostname(request_line: Seq<char>) -> Option<Seq<char>> {
    if pattern_compiles(HOST_PATTERN@) {
        first_capture(HOST_PATTERN@, request_line, 1)
    } else {
        None
    }
}

/// The hostname that a search of the request summary produced: the
/// captured text, and none where nothing was captured or the search could
/// not be run.
pub fn hostname_from_capture(found: Result<Option<String>, regex::Error>) -> (r: Option<String>)
    ensures
        r.deep_view() == (match found {
            Ok(captured) => captured.deep_view(),
            Err(_) => None,
        }),
{
    match found {
        Ok(captured) => captured,
        Err(_) => None,
    }
}

/// The hostname in a request summary: what follows `Host:`.
pub fn extract_hostname(request_line: &str) -> (r: Option<String>)
    ensures
        r.deep_view() == named_hostname(request_line@),
{
    hostname_from_capture(capture_group(HOST_PATTERN, request_line, 1))
}

/// The prefix of a name in the orchestrator's task-discovery form.
pub const TASK_PREFIX: &'static str = "tasks.";

/// Whether `c` is separator noise: a comma, a semicolon or white space.
pub open spec fn is_separator_noise(c: char) -> bool {
    c == ',' || c == ';' || text::is_space(c)
}

/// `s` without the separator noise that trails it.
pub open spec fn without_noise(s: Seq<char>) -> Seq<char> {
    text::trim_end_where(s, |c: char| is_separator_noise(c))
}

/// A backend address without trailing separator noise, and with the
/// default port where it names none.
pub open spec fn clean_address(address: Seq<char>) -> Seq<char> {
    let trimmed = without_noise(address);
    if trimmed.contains(':') {
        trimmed
    } else {
        trimmed + ":80"@
    }
}

/// Whether `c` is a comma, a semicolon or white space.
pub fn separator_noise(c: char) -> (r: bool)
    ensures
        r == is_separator_noise(c),
{
    c == ',' || c == ';' || text::is_whitespace(c)
}

/// `s` without the commas, semicolons and white space that trail it.
pub fn trim_separator_noise(s: &str) -> (r: String)
    ensures
        r@ == without_noise(s@),
{
    let v = text::to_chars(s);
    let mut k: usize = v.len();
    while k > 0 && separator_noise(v[k - 1])
        invariant
            v@ == s@,
            k <= v.len(),
            forall|j: int| k <= j < v.len() ==> is_separator_noise(#[trigger] v@[j]),
        decreases k,
    {
        k -= 1;
    }
    proof {
        text::lemma_trim_end_where(s@, |c: char| is_separator_noise(c), k as int);
    }
    String::from_str(s.substring_char(0, k))
}

/// Cleans a backend address: trailing separator noise goes, and `:80` is
/// added where no port is named.
pub fn clean_backend_address(address: &str) -> (r: String)
    ensures
        r@ == clean_address(address@),
{
    let trimmed = trim_separator_noise(address);
    if text::contains_char(trimmed.as_str(), ':') {
        trimmed
    } else {
        trimmed.concat(":80")
    }
}

/// The host part of a stored target: what stands before its last `:`, or
/// all of it.
pub open spec fn target_host(raw: Seq<char>) -> Seq<char> {
    let at = text::last_index_of(raw, ':');
    if 0 <= at < raw.len() {
        raw.take(at)
    } else {
        raw
    }
}

/// The port of a stored target: the number after its last `:`, or the
/// default port where there is no `:` or no number behind it.
pub open spec fn target_port(raw: Seq<char>) -> u16 {
    let at = text::last_index_of(raw, ':');
    if 0 <= at < raw.len() {
        match text::parse_u16_spec(raw.skip(at + 1)) {
            Some(port) => port,
            None => DEFAULT_PORT,
        }
    } else {
        DEFAULT_PORT
    }
}

/// A label that is a number: at least one character, decimal digits only.
pub open spec fn is_numeric_label(label: Seq<char>) -> bool {
    label.len() > 0 && text::all_digits(label)
}

/// The task-discovery name of a service.
pub open spec fn task_name(service: Seq<char>) -> Seq<char> {
    TASK_PREFIX@ + service
}

/// The host to forward to and the tenant that a host part names.
///
/// A host already in task-discovery form stands as it is. Otherwise, of
/// three or more labels whose first is no number, the first is the tenant
/// and the second the service; of exactly two labels the first is the
/// service; a service is named in task-discovery form. Any other host is
/// a literal address.
pub open spec fn resolve_host(host: Seq<char>) -> (Seq<char>, Option<Seq<char>>) {
    let labels = text::split_on(host, '.');
    if text::has_prefix(host, TASK_PREFIX@) {
        (host, None)
    } else if labels.len() >= 3 && !is_numeric_label(labels[0]) {
        (task_name(labels[1]), Some(labels[0]))
    } else if labels.len() == 2 {
        (task_name(labels[0]), None)
    } else {
        (host, None)
    }
}

/// A stored target read as `(host, port, tenant)`.
pub open spec fn parse_target(raw: Seq<char>) -> (Seq<char>, u16, Option<Seq<char>>) {
    let resolved = resolve_host(target_host(raw));
    (resolved.0, target_port(raw), resolved.1)
}

/// Whether `label` is a number: at least one character, decimal digits
/// only.
pub fn is_numeric(label: &str) -> (r: bool)
    ensures
        r == is_numeric_label(label@),
{
    let v = text::to_chars(label);
    let mut i: usize = 0;
    while i < v.len()
        invariant
            v@ == label@,
            i <= v.len(),
            forall|j: int| 0 <= j < i ==> text::is_digit(#[trigger] v@[j]),
        decreases v.len() - i,
    {
        if !('0' <= v[i] && v[i] <= '9') {
            proof {
                assert(!text::is_digit(label@[i as int]));
            }
            return false;
        }
        i += 1;
    }
    v.len() > 0
}

/// Reads a stored target: the host to forward to, the port, and the tenant
/// where the target names one.
pub fn parse_swarm_target(target: &str) -> (r: (String, u16, Option<String>))
    ensures
        r.0@ == parse_target(target@).0,
        r.1 == parse_target(target@).1,
        r.2.deep_view() == parse_target(target@).2,
{
    let v = text::to_chars(target);
    let n = v.len();
    let (host, port) = match text::find_last(&v, ':') {
        Some(at) => {
            let port = match text::parse_u16(target.substring_char(at + 1, n)) {
                Some(port) => port,
                None => DEFAULT_PORT,
            };
            proof {
                assert(target@.subrange(0, at as int) == target@.take(at as int));
                assert(target@.subrange(at + 1, n as int) == target@.skip(at + 1));
            }
            (String::from_str(target.substring_char(0, at)), port)
        },
        None => (String::from_str(target), DEFAULT_PORT),
    };
    assert(host@ == target_host(target@));
    assert(port == target_port(target@));
    if text::starts_with(host.as_str(), TASK_PREFIX) {
        return (host, port, None);
    }
    let mut labels = text::split(host.as_str(), '.');
    let ghost parts = labels.deep_view();
    if labels.len() >= 3 && !is_numeric(labels[0].as_str()) {
        let service = String::from_str(TASK_PREFIX).concat(labels[1].as_str());
        let tenant = labels.swap_remove(0);
        proof {
            assert(tenant@ == parts[0]);
        }
        (service, port, Some(tenant))
    } else if labels.len() == 2 {
        let service = String::from_str(TASK_PREFIX).concat(labels[0].as_str());
        (service, port, None)
    } else {
        (host, port, None)
    }
}

/// Whether a resolved name may serve a tenant: it holds the tenant's
/// identifier, or it is in task-discovery form.
pub open spec fn tenant_may_access(resolved_name: Seq<char>, tenant_id: Seq<char>) -> bool {
    text::contains_text(resolved_name, tenant_id) || text::has_prefix(resolved_name, TASK_PREFIX@)
}

/// A coarse check that a resolved name belongs to a tenant. It compares
/// text only and is advisory: it proves nothing about the network behind
/// the name.
pub fn validate_tenant_access(resolved_name: &str, tenant_id: &str) -> (r: bool)
    ensures
        r == tenant_may_access(resolved_name@, tenant_id@),
{
    text::contains(resolved_name, tenant_id) || text::starts_with(resolved_name, TASK_PREFIX)
}

/// The seconds that a liveness probe of a candidate address may take.
pub const PROBE_TIMEOUT_SECS: u64 = 2;

/// The number of resolution strategies.
pub const STRATEGY_COUNT: usize = 5;

/// The ways to turn a service name into a candidate address, in the order
/// in which they are tried.
#[derive(Clone, Copy, Debug, PartialEq, Eq, Structural)]
pub enum ResolutionStrategy {
    /// The name as it was given.
    AsGiven,
    /// The name with the default port.
    WithPort,
    /// The name in task-discovery form.
    TaskPrefix,
    /// The name in task-discovery form, with the default port.
    TaskPrefixWithPort,
    /// The name under the ingress domain, with the default port.
    IngressWithPort,
}

/// The strategy tried after `attempt` others have failed.
pub open spec fn strategy_at(attempt: int) -> ResolutionStrategy {
    if attempt <= 0 {
        ResolutionStrategy::AsGiven
    } else if attempt == 1 {
        ResolutionStrategy::WithPort
    } else if attempt == 2 {
        ResolutionStrategy::TaskPrefix
    } else if attempt == 3 {
        ResolutionStrategy::TaskPrefixWithPort
    } else {
        ResolutionStrategy::IngressWithPort
    }
}

/// The candidate address that a strategy makes of a service name.
pub open spec fn candidate_name(
    strategy: ResolutionStrategy,
    service_name: Seq<char>,
    default_port: u16,
) -> Seq<char> {
    let port = text::decimal_text(default_port as nat);
    match strategy {
        ResolutionStrategy::AsGiven => service_name,
        ResolutionStrategy::WithPort => service_name + ":"@ + port,
        ResolutionStrategy::TaskPrefix => TASK_PREFIX@ + service_name,
        ResolutionStrategy::TaskPrefixWithPort => TASK_PREFIX@ + service_name + ":"@ + port,
        ResolutionStrategy::IngressWithPort => service_name + ".ingress:"@ + port,
    }
}

/// What the text of a failed resolution says.
pub open spec fn unresolved_message(service_name: Seq<char>) -> Seq<char> {
    "Could not resolve service: "@ + service_name
}

/// The strategy tried after `attempt` others have failed.
pub fn strategy(attempt: usize) -> (r: ResolutionStrategy)
    ensures
        r == strategy_at(attempt as int),
{
    if attempt == 0 {
        ResolutionStrategy::AsGiven
    } else if attempt == 1 {
        ResolutionStrategy::WithPort
    } else if attempt == 2 {
        ResolutionStrategy::TaskPrefix
    } else if attempt == 3 {
        ResolutionStrategy::TaskPrefixWithPort
    } else {
        ResolutionStrategy::IngressWithPort
    }
}

/// The candidate address that `strategy` makes of `service_name`.
pub fn candidate(strategy: ResolutionStrategy, service_name: &str, default_port: u16) -> (r: String)
    ensures
        r@ == candidate_name(strategy, service_name@, default_port),
{
    let port = text::decimal_string(default_port as u64);
    match strategy {
        ResolutionStrategy::AsGiven => String::from_str(service_name),
        ResolutionStrategy::WithPort => String::from_str(service_name).concat(":").concat(
            port.as_str(),
        ),
        ResolutionStrategy::TaskPrefix => String::from_str(TASK_PREFIX).concat(service_name),
        ResolutionStrategy::TaskPrefixWithPort => String::from_str(TASK_PREFIX).concat(
            service_name,
        ).concat(":").concat(port.as_str()),
        ResolutionStrategy::IngressWithPort => String::from_str(service_name).concat(
            ".ingress:",
        ).concat(port.as_str()),
    }
}

/// What the resolver learns between two of its steps.
#[derive(Debug, Clone, PartialEq, Eq)]
pub enum ResolveEvent {
    /// Nothing yet: the resolution begins.
    Begin,
    /// The candidate of strategy number `attempt` was looked up and
    /// probed. `address` is the address that answered, and none where the
    /// lookup failed or the probe found nobody listening in time.
    Probed { attempt: usize, address: Option<String> },
}

/// The model of a `ResolveEvent`.
pub enum ResolveEventView {
    Begin,
    Probed { attempt: usize, address: Option<Seq<char>> },
}

impl View for ResolveEvent {
    type V = ResolveEventView;

    open spec fn view(&self) -> ResolveEventView {
        match self {
            ResolveEvent::Begin => ResolveEventView::Begin,
            ResolveEvent::Probed { attempt, address } => ResolveEventView::Probed {
                attempt: *attempt,
                address: address.deep_view(),
            },
        }
    }
}

/// What the resolver asks for, or concludes.
#[derive(Debug, Clone, PartialEq, Eq)]
pub enum ResolveStep {
    /// Look `candidate` up and probe what it resolves to; report the
    /// outcome under the number `attempt`.
    Probe { attempt: usize, candidate: String },
    /// The service answers at `address`.
    Resolved { address: String },
    /// No strategy gave a live address.
    Failed { message: String },
}

/// The model of a `ResolveStep`.
pub enum ResolveStepView {
    Probe { attempt: usize, candidate: Seq<char> },
    Resolved { address: Seq<char> },
    Failed { message: Seq<char> },
}

impl View for ResolveStep {
    type V = ResolveStepView;

    open spec fn view(&self) -> ResolveStepView {
        match self {
            ResolveStep::Probe { attempt, candidate } => ResolveStepView::Probe {
                attempt: *attempt,
                candidate: candidate@,
            },
            ResolveStep::Resolved { address } => ResolveStepView::Resolved { address: address@ },
            ResolveStep::Failed { message } => ResolveStepView::Failed { message: message@ },
        }
    }
}

/// The probe of strategy number `attempt`.
pub open spec fn probe_of(service_name: Seq<char>, default_port: u16, attempt: usize) -> ResolveStepView {
    ResolveStepView::Probe {
        attempt,
        candidate: candidate_name(strategy_at(attempt as int), service_name, default_port),
    }
}

/// One step of a resolution. It begins with the probe of the first
/// strategy. An address that answered is the result. After a probe that
/// found nothing, the next strategy is probed, and after the last one the
/// resolution has failed.
pub open spec fn resolve_step(service_name: Seq<char>, default_port: u16, event: ResolveEventView) -> ResolveStepView {
    match event {
        ResolveEventView::Begin => probe_of(service_name, default_port, 0),
        ResolveEventView::Probed { attempt: _, address: Some(found) } => ResolveStepView::Resolved {
            address: found,
        },
        ResolveEventView::Probed { attempt, address: None } => if attempt + 1 < STRATEGY_COUNT {
            probe_of(service_name, default_port, (attempt + 1) as usize)
        } else {
            ResolveStepView::Failed { message: unresolved_message(service_name) }
        },
    }
}

/// What the probe of strategy number `attempt` finds, where `outcomes`
/// records it; nothing where it does not.
pub open spec fn outcome_at(outcomes: Seq<Option<Seq<char>>>, attempt: int) -> Option<Seq<char>> {
    if 0 <= attempt < outcomes.len() {
        outcomes[attempt]
    } else {
        None
    }
}

/// The first address that answered among the probes from strategy number
/// `from` on.
pub open spec fn first_live(outcomes: Seq<Option<Seq<char>>>, from: int) -> Option<Seq<char>>
    decreases STRATEGY_COUNT - from,
{
    if from < 0 || from >= STRATEGY_COUNT {
        None
    } else if outcome_at(outcomes, from) is Some {
        outcome_at(outcomes, from)
    } else {
        first_live(outcomes, from + 1)
    }
}

/// Where a resolution that stands at `step` ends, when every probe it
/// asks for is answered as `outcomes` records.
pub open spec fn resolve_run(
    service_name: Seq<char>,
    default_port: u16,
    step: ResolveStepView,
    outcomes: Seq<Option<Seq<char>>>,
) -> ResolveStepView
    decreases
        (match step {
            ResolveStepView::Probe { attempt, .. } => STRATEGY_COUNT - attempt,
            _ => 0,
        }),
{
    match step {
        ResolveStepView::Probe { attempt, .. } => if attempt < STRATEGY_COUNT {
            let next = resolve_step(
                service_name,
                default_port,
                ResolveEventView::Probed { attempt, address: outcome_at(outcomes, attempt as int) },
            );
            match next {
                ResolveStepView::Probe { attempt: after, .. } => if after > attempt {
                    resolve_run(service_name, default_port, next, outcomes)
                } else {
                    next
                },
                _ => next,
            }
        } else {
            step
        },
        _ => step,
    }
}

/// A resolution run from the start ends with the address of the first
/// strategy, in the fixed order, whose candidate answered; it fails
/// exactly when no candidate answered.
pub proof fn lemma_resolution_order(
    service_name: Seq<char>,
    default_port: u16,
    outcomes: Seq<Option<Seq<char>>>,
)
    ensures
        resolve_run(
            service_name,
            default_port,
            resolve_step(service_name, default_port, ResolveEventView::Begin),
            outcomes,
        ) == (match first_live(outcomes, 0) {
            Some(address) => ResolveStepView::Resolved { address },
            None => ResolveStepView::Failed { message: unresolved_message(service_name) },
        }),
{
    lemma_resolution_from(service_name, default_port, outcomes, 0);
}

/// A resolution that stands at the probe of strategy number `attempt`
/// ends with the first address that answers from that strategy on.
proof fn lemma_resolution_from(
    service_name: Seq<char>,
    default_port: u16,
    outcomes: Seq<Option<Seq<char>>>,
    attempt: usize,
)
    requires
        attempt < STRATEGY_COUNT,
    ensures
        resolve_run(
            service_name,
            default_port,
            probe_of(service_name, default_port, attempt),
            outcomes,
        ) == (match first_live(outcomes, attempt as int) {
            Some(address) => ResolveStepView::Resolved { address },
            None => ResolveStepView::Failed { message: unresolved_message(service_name) },
        }),
    decreases STRATEGY_COUNT - attempt,
{
    if outcome_at(outcomes, attempt as int) is None {
        if attempt + 1 < STRATEGY_COUNT {
            lemma_resolution_from(service_name, default_port, outcomes, (attempt + 1) as usize);
        } else {
            assert(first_live(outcomes, attempt + 1) is None);
        }
    }
}

/// One step of resolving a service name: the strategies are tried in their
/// fixed order, the first candidate that answers is the address, and after
/// the last failure the resolution has failed.
pub fn resolve_swarm_service(service_name: &str, default_port: u16, event: ResolveEvent) -> (r:
    ResolveStep)
    ensures
        r@ == resolve_step(service_name@, default_port, event@),
{
    match event {
        ResolveEvent::Begin => ResolveStep::Probe {
            attempt: 0,
            candidate: candidate(strategy(0), service_name, default_port),
        },
        ResolveEvent::Probed { attempt: _, address: Some(found) } => ResolveStep::Resolved {
            address: found,
        },
        ResolveEvent::Probed { attempt: tried, address: None } => {
            if tried < STRATEGY_COUNT - 1 {
                ResolveStep::Probe {
                    attempt: tried + 1,
                    candidate: candidate(strategy(tried + 1), service_name, default_port),
                }
            } else {
                ResolveStep::Failed {
                    message: String::from_str("Could not resolve service: ").concat(service_name),
                }
            }
        },
    }
}

/// A header that the gateway adds to a forwarded request.
#[derive(Debug, Clone, PartialEq, Eq)]
pub struct ProxyHeader {
    pub name: String,
    pub value: String,
}

impl View for ProxyHeader {
    type V = (Seq<char>, Seq<char>);

    open spec fn view(&self) -> (Seq<char>, Seq<char>) {
        (self.name@, self.value@)
    }
}

impl DeepView for ProxyHeader {
    type V = (Seq<char>, Seq<char>);

    open spec fn deep_view(&self) -> (Seq<char>, Seq<char>) {
        (self.name@, self.value@)
    }
}

/// Where one request goes: the backend address, whether TLS is spoken to
/// it, the tenant the request is scoped to, the server name to present,
/// and the headers to add.
#[derive(Debug, Clone, PartialEq, Eq)]
pub struct ResolvedTarget {
    pub address: String,
    pub tls: bool,
    pub tenant_id: Option<String>,
    pub sni: String,
    pub headers: Vec<ProxyHeader>,
}

/// The model of a `ResolvedTarget`.
pub struct TargetView {
    pub address: Seq<char>,
    pub tls: bool,
    pub tenant_id: Option<Seq<char>>,
    pub sni: Seq<char>,
    pub headers: Seq<(Seq<char>, Seq<char>)>,
}

impl View for ResolvedTarget {
    type V = TargetView;

    open spec fn view(&self) -> TargetView {
        TargetView {
            address: self.address@,
            tls: self.tls,
            tenant_id: self.tenant_id.deep_view(),
            sni: self.sni@,
            headers: self.headers.deep_view(),
        }
    }
}

/// What a dispatcher decides for one request.
#[derive(Debug, Clone, PartialEq, Eq)]
pub enum Upstream {
    /// Forward to the target as it stands.
    Forward { target: ResolvedTarget },
    /// The target names a service of the orchestrator: resolve
    /// `service_name` with `port` first, then forward to the address found,
    /// or to the default backend when none is found.
    Resolve { service_name: String, port: u16, target: ResolvedTarget },
}

/// The model of an `Upstream`.
pub enum UpstreamView {
    Forward { target: TargetView },
    Resolve { service_name: Seq<char>, port: u16, target: TargetView },
}

impl View for Upstream {
    type V = UpstreamView;

    open spec fn view(&self) -> UpstreamView {
        match self {
            Upstream::Forward { target } => UpstreamView::Forward { target: target@ },
            Upstream::Resolve { service_name, port, target } => UpstreamView::Resolve {
                service_name: service_name@,
                port: *port,
                target: target@,
            },
        }
    }
}

/// The listener a request came in on.
#[derive(Clone, Copy, Debug, PartialEq, Eq, Structural)]
pub enum Scheme {
    Http,
    Https,
}

/// The value of the forwarded-protocol header.
pub open spec fn scheme_name(scheme: Scheme) -> Seq<char> {
    match scheme {
        Scheme::Http => "http"@,
        Scheme::Https => "https"@,
    }
}

/// The value of the header that names the forwarding listener.
pub open spec fn source_name(scheme: Scheme) -> Seq<char> {
    match scheme {
        Scheme::Http => "pingora-proxy"@,
        Scheme::Https => "pingora-proxy-https"@,
    }
}

/// Whether a stored target names a service of the orchestrator rather than
/// a literal address: it holds a `.`, or it is in task-discovery form.
pub open spec fn is_service_name(target: Seq<char>) -> bool {
    target.contains('.') || text::has_prefix(target, TASK_PREFIX@)
}

/// The headers added for a target that names a service: none without a
/// tenant; with one, the tenant's scope, the isolation it demands, and the
/// listener.
pub open spec fn service_headers(scheme: Scheme, tenant: Option<Seq<char>>) -> Seq<
    (Seq<char>, Seq<char>),
> {
    match tenant {
        None => Seq::empty(),
        Some(id) => match scheme {
            Scheme::Http => seq![
                ("X-Organization-ID"@, id),
                ("X-Network-Isolation"@, "strict"@),
                ("X-Organization-Boundary"@, "enforced"@),
                ("X-Proxy-Source"@, source_name(scheme)),
            ],
            Scheme::Https => seq![
                ("X-Organization-ID"@, id),
                ("X-Network-Isolation"@, "strict"@),
                ("X-Organization-Boundary"@, "enforced"@),
                ("X-Forwarded-Proto"@, scheme_name(scheme)),
                ("X-Proxy-Source"@, source_name(scheme)),
            ],
        },
    }
}

/// The headers added for a literal address: the protocol the request came
/// in on, and the listener.
pub open spec fn literal_headers(scheme: Scheme) -> Seq<(Seq<char>, Seq<char>)> {
    seq![("X-Forwarded-Proto"@, scheme_name(scheme)), ("X-Proxy-Source"@, source_name(scheme))]
}

/// The target for a request that no route matches, and for a service that
/// cannot be resolved: the default backend, without TLS, server name or
/// added headers.
pub open spec fn default_target(default_backend: Seq<char>) -> TargetView {
    TargetView {
        address: default_backend,
        tls: false,
        tenant_id: None,
        sni: Seq::empty(),
        headers: Seq::empty(),
    }
}

/// What a dispatcher decides for `hostname`, given what the table stores
/// for it.
pub open spec fn dispatch(
    stored: Option<Seq<char>>,
    hostname: Seq<char>,
    default_backend: Seq<char>,
    scheme: Scheme,
) -> UpstreamView {
    match stored {
        None => UpstreamView::Forward { target: default_target(default_backend) },
        Some(to) => if is_service_name(to) {
            let parsed = parse_target(to);
            UpstreamView::Resolve {
                service_name: parsed.0,
                port: parsed.1,
                target: TargetView {
                    address: parsed.0 + ":"@ + text::decimal_text(parsed.1 as nat),
                    tls: false,
                    tenant_id: parsed.2,
                    sni: hostname,
                    headers: service_headers(scheme, parsed.2),
                },
            }
        } else {
            UpstreamView::Forward {
                target: TargetView {
                    address: to,
                    tls: false,
                    tenant_id: None,
                    sni: hostname,
                    headers: literal_headers(scheme),
                },
            }
        },
    }
}

/// One header, from its name and value.
fn header(name: &str, value: &str) -> (r: ProxyHeader)
    ensures
        r@ == (name@, value@),
{
    ProxyHeader { name: String::from_str(name), value: String::from_str(value) }
}

/// The value of the forwarded-protocol header.
fn scheme_text(scheme: Scheme) -> (r: &'static str)
    ensures
        r@ == scheme_name(scheme),
{
    match scheme {
        Scheme::Http => "http",
        Scheme::Https => "https",
    }
}

/// The value of the header that names the forwarding listener.
fn source_text(scheme: Scheme) -> (r: &'static str)
    ensures
        r@ == source_name(scheme),
{
    match scheme {
        Scheme::Http => "pingora-proxy",
        Scheme::Https => "pingora-proxy-https",
    }
}

/// The target for a request that is not routed: the default backend.
pub fn default_upstream(default_backend: &str) -> (r: ResolvedTarget)
    ensures
        r@ == default_target(default_backend@),
{
    let r = ResolvedTarget {
        address: String::from_str(default_backend),
        tls: false,
        tenant_id: None,
        sni: String::new(),
        headers: Vec::new(),
    };
    proof {
        assert(r.headers.deep_view() == Seq::<(Seq<char>, Seq<char>)>::empty());
    }
    r
}

/// Decides where a request for `hostname` goes. The stored target is
/// copied out of the table; nothing of the table is held when this
/// returns.
pub fn select_upstream(
    servers: &RoutingTable,
    hostname: &str,
    default_backend: &str,
    scheme: Scheme,
) -> (r: Upstream)
    ensures
        r@ == dispatch(lookup(servers@, hostname@), hostname@, default_backend@, scheme),
        !servers@.contains_key(hostname@) ==> r@ == (UpstreamView::Forward {
            target: default_target(default_backend@),
        }),
{
    match servers.get(hostname) {
        None => Upstream::Forward { target: default_upstream(default_backend) },
        Some(to) => {
            if text::contains_char(to.as_str(), '.') || text::starts_with(to.as_str(), TASK_PREFIX) {
                let (host, port, tenant) = parse_swarm_target(to.as_str());
                let address = host.clone().concat(":").concat(
                    text::decimal_string(port as u64).as_str(),
                );
                let mut headers: Vec<ProxyHeader> = Vec::new();
                proof {
                    assert(headers.deep_view() == Seq::<(Seq<char>, Seq<char>)>::empty());
                }
                match &tenant {
                    Some(id) => {
                        headers.push(header("X-Organization-ID", id.as_str()));
                        headers.push(header("X-Network-Isolation", "strict"));
                        headers.push(header("X-Organization-Boundary", "enforced"));
                        match scheme {
                            Scheme::Http => {},
                            Scheme::Https => {
                                headers.push(header("X-Forwarded-Proto", scheme_text(scheme)));
                            },
                        }
                        headers.push(header("X-Proxy-Source", source_text(scheme)));
                        proof {
                            assert(headers.deep_view() == service_headers(scheme, Some(id@)));
                        }
                    },
                    None => {},
                }
                Upstream::Resolve {
                    service_name: host,
                    port,
                    target: ResolvedTarget {
                        address,
                        tls: false,
                        tenant_id: tenant,
                        sni: String::from_str(hostname),
                        headers,
                    },
                }
            } else {
                let mut headers: Vec<ProxyHeader> = Vec::new();
                headers.push(header("X-Forwarded-Proto", scheme_text(scheme)));
                headers.push(header("X-Proxy-Source", source_text(scheme)));
                proof {
                    assert(headers.deep_view() == literal_headers(scheme));
                }
                Upstream::Forward {
                    target: ResolvedTarget {
                        address: to,
                        tls: false,
                        tenant_id: None,
                        sni: String::from_str(hostname),
                        headers,
                    },
                }
            }
        },
    }
}

/// The target of a request whose service was looked for: the plan with
/// the address that answered, or the default backend when none did.
pub fn resolved_upstream(target: ResolvedTarget, found: Option<String>, default_backend: &str) -> (r:
    ResolvedTarget)
    ensures
        r@ == (match found {
            Some(address) => TargetView { address: address@, ..target@ },
            None => default_target(default_backend@),
        }),
{
    match found {
        Some(address) => ResolvedTarget {
            address,
            tls: target.tls,
            tenant_id: target.tenant_id,
            sni: target.sni,
            headers: target.headers,
        },
        None => default_upstream(default_backend),
    }
}

} // verus!
