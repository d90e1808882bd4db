//! Service discovery: routes are derived from the labels of the
//! orchestrator's services and merged into the routing table.
//!
//! One cycle is decided here. The caller asks the orchestrator for its
//! services, hands the listing to `run_cycle`, persists the snapshot that
//! comes back, and waits for the next tick. A cycle that fails leaves the
//! table alone and the loop running.

use crate::config::model::{
    distinct_keys, has_key, key_index, lemma_key_index, lemma_merge_idempotent, merge_pairs, Pair,
    RoutingTable, ServerMapping,
};
use crate::proxy::utils::{parse_target, task_name, DEFAULT_PORT, TASK_PREFIX};
use crate::text;
use vstd::prelude::*;
use vstd::string::*;

verus! {

/// The label that marks a service as fronted by the gateway.
pub const LABEL_ENABLED: &'static str = "proxy-enabled";

/// The label that names the domain of a service.
pub const LABEL_DOMAIN: &'static str = "proxy.domain";

/// The label that names the port of a service.
pub const LABEL_PORT: &'static str = "proxy.port";

/// The label that names the organization a service belongs to.
pub const LABEL_ORGANIZATION: &'static str = "org.id";

/// The seconds between two cycles, by default.
pub const DEFAULT_INTERVAL_SECS: u64 = 30;

/// The seconds that a call to the orchestrator may take.
pub const CLIENT_TIMEOUT_SECS: u64 = 120;

/// One label of a service.
#[derive(Debug, Clone, PartialEq, Eq)]
pub struct Label {
    pub name: String,
    pub value: String,
}

impl View for Label {
    type V = Pair;

    open spec fn view(&self) -> Pair {
        (self.name@, self.value@)
    }
}

impl DeepView for Label {
    type V = Pair;

    open spec fn deep_view(&self) -> Pair {
        (self.name@, self.value@)
    }
}

/// What the orchestrator says of a service: its name and its labels,
/// either of which may be missing.
#[derive(Debug, Clone, PartialEq, Eq)]
pub struct ServiceSpecRecord {
    pub name: Option<String>,
    pub labels: Option<Vec<Label>>,
}

/// The model of a `ServiceSpecRecord`.
pub struct SpecView {
    pub name: Option<Seq<char>>,
    pub labels: Option<Seq<Pair>>,
}

impl View for ServiceSpecRecord {
    type V = SpecView;

    open spec fn view(&self) -> SpecView {
        SpecView { name: self.name.deep_view(), labels: self.labels.deep_view() }
    }
}

impl DeepView for ServiceSpecRecord {
    type V = SpecView;

    open spec fn deep_view(&self) -> SpecView {
        self@
    }
}

/// One service of a listing. The orchestrator may report a service
/// without its specification.
#[derive(Debug, Clone, PartialEq, Eq)]
pub struct ServiceRecord {
    pub spec: Option<ServiceSpecRecord>,
}

impl View for ServiceRecord {
    type V = Option<SpecView>;

    open spec fn view(&self) -> Option<SpecView> {
        self.spec.deep_view()
    }
}

impl DeepView for ServiceRecord {
    type V = Option<SpecView>;

    open spec fn deep_view(&self) -> Option<SpecView> {
        self@
    }
}

/// A service that asks to be fronted: the domain it serves, the
/// organization it belongs to, its name with the orchestrator, and its
/// port.
#[derive(Debug, Clone, PartialEq, Eq)]
pub struct DiscoveredService {
    pub domain: String,
    pub tenant_id: Option<String>,
    pub service_name: String,
    pub port: u16,
}

/// The model of a `DiscoveredService`.
pub struct DiscoveredView {
    pub domain: Seq<char>,
    pub tenant_id: Option<Seq<char>>,
    pub service_name: Seq<char>,
    pub port: u16,
}

impl View for DiscoveredService {
    type V = DiscoveredView;

    open spec fn view(&self) -> DiscoveredView {
        DiscoveredView {
            domain: self.domain@,
            tenant_id: self.tenant_id.deep_view(),
            service_name: self.service_name@,
            port: self.port,
        }
    }
}

/// The value of the label `name`, where `labels` has it.
pub open spec fn label_value(labels: Seq<Pair>, name: Seq<char>) -> Option<Seq<char>> {
    if has_key(labels, name) {
        Some(labels[key_index(labels, name)].1)
    } else {
        None
    }
}

/// The port that the labels name: the number in the port label, or the
/// default port where the label is missing or holds no port number.
pub open spec fn label_port(labels: Seq<Pair>) -> u16 {
    match label_value(labels, LABEL_PORT@) {
        Some(written) => match text::parse_u16_spec(written) {
            Some(port) => port,
            None => DEFAULT_PORT,
        },
        None => DEFAULT_PORT,
    }
}

/// What a listed service asks for. A service without specification,
/// without labels or without the domain label asks for nothing. A
/// service without a name has the empty name.
pub open spec fn discovered(service: Option<SpecView>) -> Option<DiscoveredView> {
    match service {
        Some(SpecView { name, labels: Some(labels) }) => match label_value(labels, LABEL_DOMAIN@) {
            Some(domain) => Some(
                DiscoveredView {
                    domain,
                    tenant_id: label_value(labels, LABEL_ORGANIZATION@),
                    service_name: match name {
                        Some(name) => name,
                        None => Seq::empty(),
                    },
                    port: label_port(labels),
                },
            ),
            None => None,
        },
        _ => None,
    }
}

/// The target of a discovered service: its name in task-discovery form,
/// with its port.
pub open spec fn service_target(service_name: Seq<char>, port: u16) -> Seq<char> {
    TASK_PREFIX@ + service_name + ":"@ + text::decimal_text(port as nat)
}

/// The routes that a listing asks for, in the order of the listing.
pub open spec fn derived_mappings(services: Seq<Option<SpecView>>) -> Seq<Pair>
    decreases services.len(),
{
    if services.len() == 0 {
        Seq::empty()
    } else {
        let rest = derived_mappings(services.drop_last());
        match discovered(services.last()) {
            Some(found) => rest.push((found.domain, service_target(found.service_name, found.port))),
            None => rest,
        }
    }
}

/// The table after a listing was reconciled into it.
pub open spec fn reconciled(pairs: Seq<Pair>, services: Seq<Option<SpecView>>) -> Seq<Pair> {
    merge_pairs(pairs, derived_mappings(services))
}

/// Reconciling the same listing a second time changes nothing: the table
/// has the same pairs in the same order, and so the same stored form.
pub proof fn lemma_reconcile_idempotent(pairs: Seq<Pair>, services: Seq<Option<SpecView>>)
    requires
        distinct_keys(pairs),
    ensures
        reconciled(reconciled(pairs, services), services) == reconciled(pairs, services),
{
    lemma_merge_idempotent(pairs, derived_mappings(services));
}

/// The target that discovery stores for a service is read back by the
/// dispatcher as that service in task-discovery form, with its port and
/// without a tenant.
pub proof fn lemma_target_reads_back(service_name: Seq<char>, port: u16)
    ensures
        parse_target(service_target(service_name, port)) == (
            task_name(service_name),
            port,
            None::<Seq<char>>,
        ),
{
    let host = TASK_PREFIX@ + service_name;
    let digits = text::decimal_text(port as nat);
    let target = service_target(service_name, port);
    let at = host.len() as int;
    text::lemma_decimal_text(port as nat);
    text::lemma_decimal_round_trip(port);
    reveal_strlit(":");
    assert(target[at] == ':');
    assert forall|j: int| at < j < target.len() implies target[j] != ':' by {
        assert(target[j] == digits[j - at - 1]);
        assert(text::is_digit(digits[j - at - 1]));
    }
    text::lemma_last_index_of(target, ':', at);
    assert(target.take(at) == host);
    assert(target.skip(at + 1) == digits);
    assert(host.take(TASK_PREFIX@.len() as int) == TASK_PREFIX@);
}

/// The value of the label `name`, where `labels` has it.
pub fn find_label(labels: &[Label], name: &str) -> (r: Option<String>)
    ensures
        r.deep_view() == label_value(labels.deep_view(), name@),
{
    let key = String::from_str(name);
    let mut i: usize = 0;
    while i < labels.len() && !(labels[i].name == key)
        invariant
            i <= labels.len(),
            forall|j: int| 0 <= j < i ==> (#[trigger] labels.deep_view()[j]).0 != key@,
        decreases labels.len() - i,
    {
        i += 1;
    }
    proof {
        lemma_key_index(labels.deep_view(), key@, i as int);
    }
    if i < labels.len() {
        Some(labels[i].value.clone())
    } else {
        None
    }
}

/// What a listed service asks for.
pub fn describe_service(record: &ServiceRecord) -> (r: Option<DiscoveredService>)
    ensures
        (match r {
            Some(found) => Some(found@),
            None => None,
        }) == discovered(record@),
{
    let spec = match &record.spec {
        Some(spec) => spec,
        None => {
            return None;
        },
    };
    let labels = match &spec.labels {
        Some(labels) => labels,
        None => {
            return None;
        },
    };
    let domain = match find_label(labels.as_slice(), LABEL_DOMAIN) {
        Some(domain) => domain,
        None => {
            return None;
        },
    };
    let port = match find_label(labels.as_slice(), LABEL_PORT) {
        Some(written) => match text::parse_u16(written.as_str()) {
            Some(port) => port,
            None => DEFAULT_PORT,
        },
        None => DEFAULT_PORT,
    };
    let tenant_id = find_label(labels.as_slice(), LABEL_ORGANIZATION);
    let service_name = match &spec.name {
        Some(name) => name.clone(),
        None => String::new(),
    };
    Some(DiscoveredService { domain, tenant_id, service_name, port })
}

impl DiscoveredService {
    /// The target that routes to the service.
    pub fn target(&self) -> (r: String)
        ensures
            r@ == service_target(self.service_name@, self.port),
    {
        String::from_str(TASK_PREFIX).concat(self.service_name.as_str()).concat(":").concat(
            text::decimal_string(self.port as u64).as_str(),
        )
    }
}

/// How the orchestrator is reached.
#[derive(Clone, Copy, Debug, PartialEq, Eq, Structural)]
pub enum EndpointKind {
    /// Over a local socket.
    UnixSocket,
    /// Over HTTP.
    Http,
}

/// What one cycle has done.
#[derive(Debug, Clone, PartialEq, Eq)]
pub struct CycleReport {
    /// The number of routes that the listing asked for.
    pub discovered: usize,
    /// The table to persist, where the cycle merged anything.
    pub persist: Option<Vec<ServerMapping>>,
    /// Why the cycle did nothing, where the orchestrator could not be
    /// asked.
    pub error: Option<String>,
}

/// The reconciler: it holds what a cycle needs to know, and no client.
#[derive(Debug, Clone, PartialEq, Eq)]
pub struct SwarmDiscoveryService {
    /// The address of the orchestrator.
    pub endpoint: String,
    /// The networks to look at.
    pub networks: Vec<String>,
    /// The seconds between two cycles.
    pub check_interval: u64,
}

impl SwarmDiscoveryService {
    /// A reconciler for the orchestrator at `endpoint`.
    pub fn new(endpoint: &str, networks: Vec<String>, check_interval: u64) -> (r:
        SwarmDiscoveryService)
        ensures
            r.endpoint@ == endpoint@,
            r.networks == networks,
            r.check_interval == check_interval,
    {
        SwarmDiscoveryService { endpoint: String::from_str(endpoint), networks, check_interval }
    }

    /// How the orchestrator is reached: over a local socket where the
    /// endpoint begins with `unix://`, and over HTTP otherwise.
    pub fn endpoint_kind(&self) -> (r: EndpointKind)
        ensures
            r == (if text::has_prefix(self.endpoint@, "unix://"@) {
                EndpointKind::UnixSocket
            } else {
                EndpointKind::Http
            }),
    {
        if text::starts_with(self.endpoint.as_str(), "unix://") {
            EndpointKind::UnixSocket
        } else {
            EndpointKind::Http
        }
    }

    /// The filter that selects the services to list.
    pub fn service_filter() -> (r: String)
        ensures
            r@ == LABEL_ENABLED@ + "=true"@,
    {
        String::from_str(LABEL_ENABLED).concat("=true")
    }

    /// The routes that a listing asks for, in the order of the listing.
    pub fn derive_mappings(services: &[ServiceRecord]) -> (r: Vec<ServerMapping>)
        ensures
            r.deep_view() == derived_mappings(services.deep_view()),
    {
        let mut r: Vec<ServerMapping> = Vec::new();
        let mut i: usize = 0;
        proof {
            assert(r.deep_view() == Seq::<Pair>::empty());
        }
        while i < services.len()
            invariant
                i <= services.len(),
                r.deep_view() == derived_mappings(services.deep_view().take(i as int)),
            decreases services.len() - i,
        {
            proof {
                let next = services.deep_view().take(i + 1);
                assert(next.drop_last() == services.deep_view().take(i as int));
                assert(next.last() == services@[i as int]@);
            }
            match describe_service(&services[i]) {
                Some(found) => {
                    let ghost before = r.deep_view();
                    let entry = ServerMapping { to: found.target(), from: found.domain };
                    r.push(entry);
                    proof {
                        assert(r.deep_view() == before.push(entry@));
                    }
                },
                None => {},
            }
            i += 1;
        }
        proof {
            assert(services.deep_view().take(i as int) == services.deep_view());
        }
        r
    }

    /// Merges the routes that a listing asks for into the table, each by
    /// an upsert. Returns the snapshot to persist, once for the whole
    /// listing, and nothing where the listing asked for no route.
    pub fn discover_services(&self, servers: &mut RoutingTable, services: &[ServiceRecord]) -> (r:
        Option<Vec<ServerMapping>>)
        ensures
            final(servers).pairs() == reconciled(old(servers).pairs(), services.deep_view()),
            r is Some == (derived_mappings(services.deep_view()).len() > 0),
            r matches Some(snapshot) ==> snapshot.deep_view() == final(servers).pairs(),
    {
        let mappings = Self::derive_mappings(services);
        let mut i: usize = 0;
        while i < mappings.len()
            invariant
                i <= mappings.len(),
                servers.pairs() == merge_pairs(
                    old(servers).pairs(),
                    mappings.deep_view().take(i as int),
                ),
            decreases mappings.len() - i,
        {
            proof {
                let next = mappings.deep_view().take(i + 1);
                assert(next.drop_last() == mappings.deep_view().take(i as int));
                assert(next.last() == mappings@[i as int]@);
            }
            servers.upsert(mappings[i].from.clone(), mappings[i].to.clone());
            i += 1;
        }
        proof {
            assert(mappings.deep_view().take(i as int) == mappings.deep_view());
        }
        if mappings.len() > 0 {
            Some(servers.snapshot())
        } else {
            None
        }
    }

    /// One cycle of the reconciler. `listing` is what the orchestrator
    /// answered, or why it could not be asked. A failed listing changes
    /// nothing and is reported; it never ends the loop.
    pub fn run_cycle(
        &self,
        servers: &mut RoutingTable,
        listing: Result<Vec<ServiceRecord>, String>,
    ) -> (r: CycleReport)
        ensures
            match listing {
                Ok(services) => {
                    &&& final(servers).pairs() == reconciled(
                        old(servers).pairs(),
                        services.deep_view(),
                    )
                    &&& r.discovered == derived_mappings(services.deep_view()).len()
                    &&& r.persist is Some == (r.discovered > 0)
                    &&& r.persist matches Some(snapshot) ==> snapshot.deep_view()
                        == final(servers).pairs()
                    &&& r.error is None
                },
                Err(reason) => {
                    &&& final(servers).pairs() == old(servers).pairs()
                    &&& r.discovered == 0
                    &&& r.persist is None
                    &&& r.error.deep_view() == Some(reason@)
                },
            },
    {
        match listing {
            Ok(services) => {
                let discovered = Self::derive_mappings(services.as_slice()).len();
                let persist = self.discover_services(servers, services.as_slice());
                CycleReport { discovered, persist, error: None }
            },
            Err(reason) => CycleReport { discovered: 0, persist: None, error: Some(reason) },
        }
    }

    /// The name of the network that isolates an organization.
    pub fn org_network_name(org_id: &str) -> (r: String)
        ensures
            r@ == "org_"@ + org_id@ + "_overlay"@,
    {
        String::from_str("org_").concat(org_id).concat("_overlay")
    }
}

} // verus!
