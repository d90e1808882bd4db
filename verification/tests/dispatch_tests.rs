use domain_proxy::config::model::RoutingTable;
use domain_proxy::proxy::http::{ChallengeDecision, ChallengeReply, HttpProxy};
use domain_proxy::proxy::https::HttpsProxy;
use domain_proxy::proxy::utils::{
    default_upstream, resolved_upstream, select_upstream, ProxyHeader, ResolvedTarget, Scheme,
    Upstream,
};

fn table() -> RoutingTable {
    let mut table = RoutingTable::new();
    table.upsert("literal.test".to_string(), "localhost:3000".to_string());
    table.upsert("ip.test".to_string(), "10.0.0.9:9000".to_string());
    table.upsert("tenant.test".to_string(), "org1.svc.net:8080".to_string());
    table.upsert("tasks.test".to_string(), "tasks.web:8080".to_string());
    table
}

fn header(name: &str, value: &str) -> ProxyHeader {
    ProxyHeader { name: name.to_string(), value: value.to_string() }
}

fn default_target() -> ResolvedTarget {
    ResolvedTarget {
        address: "127.0.0.1:5500".to_string(),
        tls: false,
        tenant_id: None,
        sni: String::new(),
        headers: vec![],
    }
}

#[test]
fn unknown_hostname_goes_to_the_default_backend() {
    let servers = table();
    let http = HttpProxy::new();
    let https = HttpsProxy::new();
    for hostname in ["nowhere.test", "", "LITERAL.test", "literal.test:80", "literal"] {
        assert_eq!(
            http.upstream_peer(&servers, hostname),
            Upstream::Forward { target: default_target() }
        );
        assert_eq!(
            https.upstream_peer(&servers, hostname),
            Upstream::Forward { target: default_target() }
        );
    }
    let empty = RoutingTable::new();
    assert_eq!(
        http.upstream_peer(&empty, "literal.test"),
        Upstream::Forward { target: default_target() }
    );
}

#[test]
fn configured_default_backend_is_used() {
    let http = HttpProxy { default_backend: "127.0.0.1:9999".to_string(), webroot: "/srv".to_string() };
    match http.upstream_peer(&RoutingTable::new(), "a.com") {
        Upstream::Forward { target } => {
            assert_eq!(target.address, "127.0.0.1:9999");
            assert_eq!(target.sni, "");
            assert!(target.headers.is_empty());
            assert!(!target.tls);
        }
        other => panic!("unexpected {:?}", other),
    }
    assert_eq!(default_upstream("127.0.0.1:9999").address, "127.0.0.1:9999");
}

#[test]
fn literal_target_is_forwarded_with_protocol_header() {
    let servers = table();
    assert_eq!(
        HttpProxy::new().upstream_peer(&servers, "literal.test"),
        Upstream::Forward {
            target: ResolvedTarget {
                address: "localhost:3000".to_string(),
                tls: false,
                tenant_id: None,
                sni: "literal.test".to_string(),
                headers: vec![
                    header("X-Forwarded-Proto", "http"),
                    header("X-Proxy-Source", "pingora-proxy")
                ],
            }
        }
    );
    assert_eq!(
        HttpsProxy::new().upstream_peer(&servers, "literal.test"),
        Upstream::Forward {
            target: ResolvedTarget {
                address: "localhost:3000".to_string(),
                tls: false,
                tenant_id: None,
                sni: "literal.test".to_string(),
                headers: vec![
                    header("X-Forwarded-Proto", "https"),
                    header("X-Proxy-Source", "pingora-proxy-https")
                ],
            }
        }
    );
}

#[test]
fn tenant_target_gets_scope_headers() {
    let servers = table();
    assert_eq!(
        HttpProxy::new().upstream_peer(&servers, "tenant.test"),
        Upstream::Resolve {
            service_name: "tasks.svc".to_string(),
            port: 8080,
            target: ResolvedTarget {
                address: "tasks.svc:8080".to_string(),
                tls: false,
                tenant_id: Some("org1".to_string()),
                sni: "tenant.test".to_string(),
                headers: vec![
                    header("X-Organization-ID", "org1"),
                    header("X-Network-Isolation", "strict"),
                    header("X-Organization-Boundary", "enforced"),
                    header("X-Proxy-Source", "pingora-proxy"),
                ],
            }
        }
    );
    assert_eq!(
        select_upstream(&servers, "tenant.test", "127.0.0.1:5500", Scheme::Https),
        Upstream::Resolve {
            service_name: "tasks.svc".to_string(),
            port: 8080,
            target: ResolvedTarget {
                address: "tasks.svc:8080".to_string(),
                tls: false,
                tenant_id: Some("org1".to_string()),
                sni: "tenant.test".to_string(),
                headers: vec![
                    header("X-Organization-ID", "org1"),
                    header("X-Network-Isolation", "strict"),
                    header("X-Organization-Boundary", "enforced"),
                    header("X-Forwarded-Proto", "https"),
                    header("X-Proxy-Source", "pingora-proxy-https"),
                ],
            }
        }
    );
}

#[test]
fn service_target_without_tenant_has_no_headers() {
    let servers = table();
    assert_eq!(
        HttpProxy::new().upstream_peer(&servers, "tasks.test"),
        Upstream::Resolve {
            service_name: "tasks.web".to_string(),
            port: 8080,
            target: ResolvedTarget {
                address: "tasks.web:8080".to_string(),
                tls: false,
                tenant_id: None,
                sni: "tasks.test".to_string(),
                headers: vec![],
            }
        }
    );
    assert_eq!(
        HttpProxy::new().upstream_peer(&servers, "ip.test"),
        Upstream::Resolve {
            service_name: "10.0.0.9".to_string(),
            port: 9000,
            target: ResolvedTarget {
                address: "10.0.0.9:9000".to_string(),
                tls: false,
                tenant_id: None,
                sni: "ip.test".to_string(),
                headers: vec![],
            }
        }
    );
}

#[test]
fn failed_resolution_falls_back_to_the_default_backend() {
    let plan = ResolvedTarget {
        address: "tasks.svc:8080".to_string(),
        tls: false,
        tenant_id: Some("org1".to_string()),
        sni: "tenant.test".to_string(),
        headers: vec![header("X-Organization-ID", "org1")],
    };
    assert_eq!(resolved_upstream(plan.clone(), None, "127.0.0.1:5500"), default_target());
    let found = resolved_upstream(plan.clone(), Some("10.1.2.3:8080".to_string()), "127.0.0.1:5500");
    assert_eq!(found, ResolvedTarget { address: "10.1.2.3:8080".to_string(), ..plan });
}

#[test]
fn challenge_is_intercepted_on_http_only() {
    let http = HttpProxy::new();
    assert_eq!(http.request_filter("/index.html"), ChallengeDecision::Continue);
    assert_eq!(http.request_filter("/.well-known/acme-challenge"), ChallengeDecision::Continue);
    assert_eq!(http.request_filter("/.well-known/acme-challenge/"), ChallengeDecision::NotFound);
    assert_eq!(http.request_filter("/.well-known/acme-challenge/a/"), ChallengeDecision::NotFound);
    assert_eq!(
        http.request_filter("/.well-known/acme-challenge/tok_en-1"),
        ChallengeDecision::ReadProof {
            token: "tok_en-1".to_string(),
            file: "/var/www/html/.well-known/acme-challenge/tok_en-1".to_string(),
        }
    );
    assert_eq!(
        http.request_filter("/.well-known/acme-challenge/dir/inner"),
        ChallengeDecision::ReadProof {
            token: "inner".to_string(),
            file: "/var/www/html/.well-known/acme-challenge/inner".to_string(),
        }
    );
    let https = HttpsProxy::new();
    assert_eq!(
        https.request_filter("/.well-known/acme-challenge/tok_en-1"),
        ChallengeDecision::Continue
    );
}

#[test]
fn challenge_response_echoes_the_proof() {
    let http = HttpProxy::new();
    assert_eq!(
        http.challenge_response(Some("proof.body".to_string())),
        ChallengeReply {
            status: 200,
            content_type: Some("text/plain".to_string()),
            body: Some("proof.body".to_string()),
        }
    );
    assert_eq!(
        http.challenge_response(None),
        ChallengeReply { status: 404, content_type: None, body: None }
    );
}
