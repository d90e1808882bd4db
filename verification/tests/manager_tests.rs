use domain_proxy::config::model::{Configuration, RoutingTable, ServerMapping};
use domain_proxy::cert::issuer::CertificateIssuer;
use domain_proxy::proxy::manager::{
    ApiResponse, DomainMapping, ManagerProxy, ManagerStep, Mutation, RequestFailure,
};
use domain_proxy::proxy::utils::ProxyHeader;

fn segments(path: &str) -> Vec<String> {
    path.split('/').map(|s| s.to_string()).collect()
}

fn mapping(from: &str, to: &str) -> ServerMapping {
    ServerMapping { from: from.to_string(), to: to.to_string() }
}

fn listed(pairs: &[(&str, &str)]) -> ApiResponse {
    ApiResponse {
        status: "success".to_string(),
        error: None,
        message: None,
        mappings: Some(
            pairs
                .iter()
                .map(|(from, to)| DomainMapping { from: from.to_string(), to: to.to_string() })
                .collect(),
        ),
    }
}

fn refused(status: u16, text: &str) -> ManagerStep {
    ManagerStep::Respond { status, response: ManagerProxy::error_response(text) }
}

#[test]
fn success_and_error_envelopes() {
    assert_eq!(
        ManagerProxy::success_response(),
        ApiResponse { status: "success".to_string(), error: None, message: None, mappings: None }
    );
    assert_eq!(
        ManagerProxy::error_response("boom"),
        ApiResponse {
            status: "error".to_string(),
            error: Some("boom".to_string()),
            message: None,
            mappings: None
        }
    );
}

#[test]
fn extract_domain_and_backend_trims_the_backend() {
    let manager = ManagerProxy::new();
    assert_eq!(
        manager.extract_domain_and_backend(&segments("/a.com/1.2.3.4:80,")),
        ("a.com".to_string(), "1.2.3.4:80".to_string())
    );
    assert_eq!(
        manager.extract_domain_and_backend(&segments("/a.com")),
        ("a.com".to_string(), "".to_string())
    );
    assert_eq!(manager.extract_domain_and_backend(&segments("")), ("".to_string(), "".to_string()));
    assert_eq!(
        manager.extract_domain_and_backend(&segments("/a.com,/b ;")),
        ("a.com,".to_string(), "b".to_string())
    );
}

#[test]
fn example_scenario() {
    let manager = ManagerProxy::new();
    let mut servers = RoutingTable::new();

    let step = manager.request_filter(&mut servers, "POST /example.com/10.0.0.9:9000");
    let change = match step {
        ManagerStep::Persist { snapshot, change } => {
            assert_eq!(snapshot, vec![mapping("example.com", "10.0.0.9:9000")]);
            change
        }
        other => panic!("unexpected {:?}", other),
    };
    assert_eq!(
        change,
        Mutation::Upsert { domain: "example.com".to_string(), backend: "10.0.0.9:9000".to_string() }
    );
    assert_eq!(manager.persist_reply(&change, None, None), (200, ManagerProxy::success_response()));

    assert_eq!(
        manager.request_filter(&mut servers, "GET /"),
        ManagerStep::Respond { status: 200, response: listed(&[("example.com", "10.0.0.9:9000")]) }
    );

    let step = manager.request_filter(&mut servers, "DELETE /example.com");
    let change = match step {
        ManagerStep::Persist { snapshot, change } => {
            assert!(snapshot.is_empty());
            change
        }
        other => panic!("unexpected {:?}", other),
    };
    assert_eq!(change, Mutation::Delete { domain: "example.com".to_string() });
    let stored = Configuration::new();
    assert_eq!(
        manager.persist_reply(&change, None, Some(&stored)),
        (200, ManagerProxy::success_response())
    );

    assert_eq!(
        manager.request_filter(&mut servers, "GET /"),
        ManagerStep::Respond { status: 200, response: listed(&[]) }
    );
}

#[test]
fn summary_with_host_suffix_is_understood() {
    let manager = ManagerProxy::new();
    let mut servers = RoutingTable::new();
    let step = manager.request_filter(&mut servers, "PUT /a.com/1.2.3.4:80, Host: admin:81");
    assert!(matches!(step, ManagerStep::Persist { .. }));
    assert_eq!(servers.get("a.com"), Some("1.2.3.4:80".to_string()));
    let step = manager.request_filter(&mut servers, "DELETE /a.com, Host: admin:81");
    assert!(matches!(step, ManagerStep::Persist { .. }));
    assert_eq!(servers.len(), 0);
}

#[test]
fn removing_an_absent_domain_is_not_found_and_changes_nothing() {
    let manager = ManagerProxy::new();
    let mut servers = RoutingTable::new();
    servers.upsert("a.com".to_string(), "1.2.3.4:80".to_string());
    let before = servers.snapshot();
    assert_eq!(
        manager.request_filter(&mut servers, "DELETE /b.com"),
        refused(404, "Domain b.com not found")
    );
    assert_eq!(servers.snapshot(), before);
    assert_eq!(
        manager.handle_delete_mapping(&mut servers, &segments("/b.com")),
        refused(404, "Domain b.com not found")
    );
    assert_eq!(servers.snapshot(), before);
}

#[test]
fn removal_without_a_domain_is_refused() {
    let manager = ManagerProxy::new();
    let mut servers = RoutingTable::new();
    servers.upsert("a.com".to_string(), "1.2.3.4:80".to_string());
    assert_eq!(
        manager.handle_delete_mapping(&mut servers, &segments("")),
        refused(400, "Missing domain parameter")
    );
    assert_eq!(manager.request_filter(&mut servers, "DELETE /"), refused(400, "Invalid domain"));
    assert_eq!(manager.request_filter(&mut servers, "DELETE /,;"), refused(400, "Invalid domain"));
    assert_eq!(manager.request_filter(&mut servers, "DELETE"), refused(400, "Missing domain parameter"));
    assert_eq!(servers.len(), 1);
}

#[test]
fn upsert_without_domain_or_backend_is_refused() {
    let manager = ManagerProxy::new();
    let mut servers = RoutingTable::new();
    for summary in ["POST /", "POST /a.com", "POST /a.com/", "PUT //1.2.3.4:80", "POST /a.com/,; ", "POST"] {
        assert_eq!(
            manager.request_filter(&mut servers, summary),
            refused(400, "Invalid domain or backend address"),
            "{}",
            summary
        );
    }
    assert_eq!(servers.len(), 0);
}

#[test]
fn other_methods_are_not_allowed() {
    let manager = ManagerProxy::new();
    let mut servers = RoutingTable::new();
    assert_eq!(manager.request_filter(&mut servers, "PATCH /a.com/b"), refused(405, "Method not allowed"));
    assert_eq!(manager.request_filter(&mut servers, ""), refused(405, "Method not allowed"));
    assert_eq!(manager.request_filter(&mut servers, "get /"), refused(405, "Method not allowed"));
    assert_eq!(
        manager.route_request(&mut servers, "HEAD", "/certificates"),
        refused(405, "Method not allowed for certificates endpoint")
    );
}

#[test]
fn certificate_endpoints_are_routed() {
    let manager = ManagerProxy::new();
    let mut servers = RoutingTable::new();
    assert_eq!(
        manager.request_filter(&mut servers, "POST /certificates, Host: admin"),
        ManagerStep::IssueCertificate
    );
    assert_eq!(
        manager.request_filter(&mut servers, "GET /certificates/example.com, Host: admin"),
        ManagerStep::CheckCertificate { domain: "example.com".to_string() }
    );
    assert_eq!(
        manager.request_filter(&mut servers, "GET /certificates"),
        refused(400, "Domain parameter required")
    );
    assert_eq!(
        manager.handle_certificate_request("GET", &segments("/certificates/a.com")),
        ManagerStep::CheckCertificate { domain: "a.com".to_string() }
    );
    assert_eq!(
        manager.handle_certificate_request("DELETE", &segments("/certificates/a.com")),
        refused(405, "Method not allowed for certificates endpoint")
    );
    assert_eq!(servers.len(), 0);
}

#[test]
fn persist_failure_is_a_500_and_the_change_stays() {
    let manager = ManagerProxy::new();
    let mut servers = RoutingTable::new();
    let step = manager.request_filter(&mut servers, "POST /a.com/1.2.3.4:80");
    let change = match step {
        ManagerStep::Persist { change, .. } => change,
        other => panic!("unexpected {:?}", other),
    };
    assert_eq!(
        manager.persist_reply(&change, Some("disk full".to_string()), None),
        (500, ManagerProxy::error_response("Failed to persist configuration: disk full"))
    );
    assert_eq!(servers.get("a.com"), Some("1.2.3.4:80".to_string()));

    let step = manager.request_filter(&mut servers, "DELETE /a.com");
    let change = match step {
        ManagerStep::Persist { change, .. } => change,
        other => panic!("unexpected {:?}", other),
    };
    assert_eq!(
        manager.persist_reply(&change, Some("disk full".to_string()), None),
        (500, ManagerProxy::error_response("Failed to persist configuration change: disk full"))
    );
    assert_eq!(servers.get("a.com"), None);
}

#[test]
fn removal_that_is_still_stored_is_reported() {
    let manager = ManagerProxy::new();
    let change = Mutation::Delete { domain: "a.com".to_string() };
    let stale = Configuration { servers: vec![mapping("b.com", "x"), mapping("a.com", "1.2.3.4:80")] };
    assert_eq!(
        manager.persist_reply(&change, None, Some(&stale)),
        (
            500,
            ManagerProxy::error_response(
                "Domain was removed from memory but still exists in config file"
            )
        )
    );
    let clean = Configuration { servers: vec![mapping("b.com", "x")] };
    assert_eq!(
        manager.persist_reply(&change, None, Some(&clean)),
        (200, ManagerProxy::success_response())
    );
    assert_eq!(manager.persist_reply(&change, None, None), (200, ManagerProxy::success_response()));
}

#[test]
fn two_posts_for_one_domain_leave_one_entry() {
    let manager = ManagerProxy::new();
    let mut servers = RoutingTable::new();
    let first = manager.request_filter(&mut servers, "POST /a.com/1.2.3.4:80");
    let second = manager.request_filter(&mut servers, "POST /a.com/1.2.3.4:80");
    for step in [first, second] {
        match step {
            ManagerStep::Persist { change, .. } => {
                assert_eq!(manager.persist_reply(&change, None, None).0, 200)
            }
            other => panic!("unexpected {:?}", other),
        }
    }
    assert_eq!(servers.snapshot(), vec![mapping("a.com", "1.2.3.4:80")]);
}

#[test]
fn lock_failure_is_a_500() {
    assert_eq!(
        ManagerProxy::lock_failure(),
        (500, ManagerProxy::error_response("Failed to acquire lock on server configuration"))
    );
}

#[test]
fn list_mappings_lists_the_snapshot() {
    let manager = ManagerProxy::new();
    let mut servers = RoutingTable::new();
    servers.upsert("b.com".to_string(), "2".to_string());
    servers.upsert("a.com".to_string(), "1".to_string());
    assert_eq!(manager.handle_list_mappings(&servers), (200, listed(&[("b.com", "2"), ("a.com", "1")])));
}

#[test]
fn every_answer_closes_the_connection() {
    assert_eq!(
        ManagerProxy::response_headers(),
        vec![
            ProxyHeader { name: "content-type".to_string(), value: "application/json".to_string() },
            ProxyHeader { name: "connection".to_string(), value: "close".to_string() },
        ]
    );
}

#[test]
fn certificate_request_failures() {
    assert_eq!(
        ManagerProxy::certificate_failure(RequestFailure::BodyUnreadable, "reset"),
        (400, ManagerProxy::error_response("Failed to read request body: reset"))
    );
    assert_eq!(
        ManagerProxy::certificate_failure(RequestFailure::InvalidFormat, "missing field `email`"),
        (400, ManagerProxy::error_response("Invalid request format: missing field `email`"))
    );
    assert_eq!(
        ManagerProxy::certificate_failure(RequestFailure::IssuerUnavailable, "denied"),
        (500, ManagerProxy::error_response("Certificate issuer initialization failed: denied"))
    );
}

#[test]
fn certificate_replies() {
    let failed = CertificateIssuer::failed("a.com", "nope".to_string());
    assert_eq!(ManagerProxy::issue_reply_status(&failed), 400);
    let issuer = CertificateIssuer::new("certbot/letsencrypt", "certs", None);
    let issued = issuer.issued("a.com", None);
    assert_eq!(ManagerProxy::issue_reply_status(&issued), 200);
    assert_eq!(ManagerProxy::check_reply("a.com", Some(issued.clone())), (200, issued));
    assert_eq!(
        ManagerProxy::check_reply("a.com", None),
        (200, CertificateIssuer::not_found("a.com"))
    );
}

#[test]
fn route_request_trims_noise_from_a_structured_path() {
    let manager = ManagerProxy::new();
    let mut servers = RoutingTable::new();
    let step = manager.route_request(&mut servers, "POST", "/a.com/1.2.3.4:80 ;\t");
    assert!(matches!(step, ManagerStep::Persist { .. }));
    assert_eq!(servers.get("a.com"), Some("1.2.3.4:80".to_string()));
    let step = manager.route_request(&mut servers, "DELETE", "/a.com;,/");
    assert_eq!(
        step,
        ManagerStep::Persist {
            snapshot: vec![],
            change: Mutation::Delete { domain: "a.com".to_string() },
        }
    );
    let step = manager.handle_delete_mapping(&mut servers, &segments("/b.com/ ,"));
    assert_eq!(step, refused(404, "Domain b.com not found"));
    let step = manager.handle_delete_mapping(
        &mut servers,
        &["".to_string(), "b.com/,/".to_string()],
    );
    assert_eq!(step, refused(404, "Domain b.com not found"));
}
