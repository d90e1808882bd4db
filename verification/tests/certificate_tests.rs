use domain_proxy::cert::certbot::{certificate_files, find_certbot_certs, live_file, DomainCert};
use domain_proxy::cert::issuer::{
    ArtifactPaths, CertificateIssuer, CertificateRequest, CertificateStatus, IssuanceAction,
    IssuanceEvent, IssuancePlan,
};

const DAY: u64 = 24 * 60 * 60;

fn issuer() -> CertificateIssuer {
    CertificateIssuer::new("certbot/letsencrypt", "certs", Some("203.0.113.7".to_string()))
}

fn request(force_renew: Option<bool>) -> CertificateRequest {
    CertificateRequest {
        domain: "example.com".to_string(),
        email: "ops@example.com".to_string(),
        staging: None,
        force_renew,
    }
}

fn failed(text: &str) -> IssuanceAction {
    IssuanceAction::Finish {
        record: CertificateStatus {
            domain: "example.com".to_string(),
            status: "failed".to_string(),
            cert_path: None,
            key_path: None,
            expiry: None,
            error: Some(text.to_string()),
        },
    }
}

#[test]
fn certificate_forty_days_out_is_valid() {
    let now = 1_700_000_000;
    let record = issuer().check_certificate("example.com", true, Some(now + 40 * DAY), now).unwrap();
    assert_eq!(record.status, "valid");
    assert_eq!(
        record.cert_path,
        Some("certbot/letsencrypt/live/example.com/fullchain.pem".to_string())
    );
    assert_eq!(
        record.key_path,
        Some("certbot/letsencrypt/live/example.com/privkey.pem".to_string())
    );
    assert_eq!(record.expiry, Some((now + 40 * DAY).to_string()));
    assert_eq!(record.error, None);
    assert_eq!(record.domain, "example.com");
    assert!(record.is_usable());
}

#[test]
fn certificate_ten_days_out_is_expiring_soon() {
    let now = 1_700_000_000;
    let record = issuer().check_certificate("example.com", true, Some(now + 10 * DAY), now).unwrap();
    assert_eq!(record.status, "expiring_soon");
    assert!(!record.cert_path.unwrap().is_empty());
    assert!(!record.key_path.unwrap().is_empty());
    assert_eq!(record.error, None);
}

#[test]
fn renewal_window_is_thirty_days_exactly() {
    let now = 1_700_000_000;
    let at = |expiry: u64| issuer().check_certificate("a.com", true, Some(expiry), now).unwrap().status;
    assert_eq!(at(now + 30 * DAY + 1), "valid");
    assert_eq!(at(now + 30 * DAY), "expiring_soon");
    assert_eq!(at(now), "expiring_soon");
    assert_eq!(at(0), "expiring_soon");
    assert_eq!(at(u64::MAX), "valid");
    let late = issuer().check_certificate("a.com", true, Some(u64::MAX), u64::MAX).unwrap();
    assert_eq!(late.status, "expiring_soon");
    let edge = issuer().check_certificate("a.com", true, Some(u64::MAX), u64::MAX - 30 * DAY).unwrap();
    assert_eq!(edge.status, "expiring_soon");
}

#[test]
fn unknown_expiry_still_names_the_files() {
    let record = issuer().check_certificate("example.com", true, None, 5).unwrap();
    assert_eq!(record.status, "unknown_expiry");
    assert_eq!(record.expiry, None);
    assert_eq!(record.error, Some("Could not determine certificate expiry".to_string()));
    assert!(record.cert_path.is_some() && record.key_path.is_some());
    assert!(record.is_usable());
}

#[test]
fn missing_files_give_no_record() {
    assert_eq!(issuer().check_certificate("example.com", false, Some(99), 5), None);
    assert_eq!(issuer().check_certificate("example.com", false, None, 5), None);
    let record = CertificateIssuer::not_found("example.com");
    assert_eq!(record.status, "not_found");
    assert_eq!(record.cert_path, None);
    assert!(!record.is_usable());
    assert!(!CertificateIssuer::failed("a.com", "x".to_string()).is_usable());
}

#[test]
fn issuer_defaults() {
    let unknown = CertificateIssuer::new("c", "o", None);
    assert_eq!(unknown.public_ip, "0.0.0.0");
    assert_eq!(unknown.certbot_dir, "c");
    assert_eq!(unknown.output_dir, "o");
    assert!(unknown.dummy_testing);
    assert_eq!(CertificateIssuer::get_public_ip(true, " 203.0.113.7\n"), Some("203.0.113.7".to_string()));
    assert_eq!(CertificateIssuer::get_public_ip(false, "203.0.113.7"), None);
    assert_eq!(CertificateIssuer::lookup_host("a.com"), "a.com:443");
}

#[test]
fn accepted_addresses() {
    let issuer = issuer();
    for ip in ["127.0.0.1", "localhost", "203.0.113.7", "192.168.1.1", "10.2.3.4"] {
        assert!(issuer.accepts_address(ip), "{}", ip);
    }
    for ip in ["8.8.8.8", "172.16.0.1", "100.64.0.1", "", "192.169.0.1", "1.10.0.1", "::1"] {
        assert!(!issuer.accepts_address(ip), "{}", ip);
    }
}

#[test]
fn validate_domain_wants_one_accepted_address() {
    let issuer = issuer();
    let list = |ips: &[&str]| ips.iter().map(|s| s.to_string()).collect::<Vec<String>>();
    assert_eq!(issuer.validate_domain("a.com", &list(&["8.8.8.8", "10.0.0.1"])), Ok(()));
    assert_eq!(
        issuer.validate_domain("a.com", &list(&["8.8.8.8"])),
        Err(
            "Domain a.com does not resolve to a valid IP (local: 127.0.0.1 or public: 203.0.113.7)"
                .to_string()
        )
    );
    assert!(issuer.validate_domain("a.com", &[]).is_err());
}

#[test]
fn flow_returns_an_existing_certificate() {
    let issuer = issuer();
    let request = request(None);
    assert_eq!(
        issuer.process_request(&request, IssuanceEvent::Start),
        IssuanceAction::Resolve { host: "example.com:443".to_string() }
    );
    assert_eq!(
        issuer.process_request(
            &request,
            IssuanceEvent::Resolved { addresses: vec!["127.0.0.1".to_string()] }
        ),
        IssuanceAction::Inspect {
            cert_path: "certbot/letsencrypt/live/example.com/fullchain.pem".to_string(),
            key_path: "certbot/letsencrypt/live/example.com/privkey.pem".to_string(),
        }
    );
    let now = 1_700_000_000;
    match issuer.process_request(
        &request,
        IssuanceEvent::Inspected { present: true, expiry: Some(now + 40 * DAY), now },
    ) {
        IssuanceAction::Finish { record } => assert_eq!(record.status, "valid"),
        other => panic!("unexpected {:?}", other),
    }
    match issuer.process_request(
        &request,
        IssuanceEvent::Inspected { present: true, expiry: None, now },
    ) {
        IssuanceAction::Finish { record } => assert_eq!(record.status, "unknown_expiry"),
        other => panic!("unexpected {:?}", other),
    }
}

#[test]
fn flow_issues_a_placeholder_where_nothing_exists() {
    let issuer = issuer();
    let request = request(Some(false));
    let action = issuer.process_request(
        &request,
        IssuanceEvent::Inspected { present: false, expiry: None, now: 1 },
    );
    assert_eq!(
        action,
        IssuanceAction::Issue {
            paths: ArtifactPaths {
                live_dir: "certbot/letsencrypt/live/example.com".to_string(),
                cert_path: "certbot/letsencrypt/live/example.com/fullchain.pem".to_string(),
                key_path: "certbot/letsencrypt/live/example.com/privkey.pem".to_string(),
                output_dir: "certs/example.com".to_string(),
                output_cert: "certs/example.com/fullchain.pem".to_string(),
                output_key: "certs/example.com/privkey.pem".to_string(),
            },
            plan: IssuancePlan::Placeholder {
                certificate: "DUMMY CERTIFICATE FOR TESTING\n".to_string(),
                key: "DUMMY PRIVATE KEY FOR TESTING\n".to_string(),
            },
        }
    );
    assert_eq!(
        issuer.process_request(&request, IssuanceEvent::Issued { expiry: Some(5) }),
        IssuanceAction::Finish {
            record: CertificateStatus {
                domain: "example.com".to_string(),
                status: "issued".to_string(),
                cert_path: Some("certbot/letsencrypt/live/example.com/fullchain.pem".to_string()),
                key_path: Some("certbot/letsencrypt/live/example.com/privkey.pem".to_string()),
                expiry: Some("2099-12-31T23:59:59Z".to_string()),
                error: None,
            }
        }
    );
}

#[test]
fn forced_renewal_skips_the_check() {
    let issuer = issuer();
    let action = issuer.process_request(
        &request(Some(true)),
        IssuanceEvent::Resolved { addresses: vec!["10.0.0.1".to_string()] },
    );
    assert!(matches!(action, IssuanceAction::Issue { .. }));
}

#[test]
fn tool_plan_carries_the_arguments() {
    let mut issuer = issuer();
    issuer.dummy_testing = false;
    let mut request = request(None);
    let expected = |staging: bool| {
        let mut arguments: Vec<String> = [
            "certonly", "--webroot", "-w", "/var/www/html", "--email", "ops@example.com",
            "--agree-tos", "--no-eff-email", "-d", "example.com", "--config-dir",
            "certbot/letsencrypt",
        ]
        .iter()
        .map(|s| s.to_string())
        .collect();
        if staging {
            arguments.push("--staging".to_string());
        }
        IssuancePlan::Tool { program: "certbot".to_string(), arguments }
    };
    assert_eq!(issuer.issue_certificate(&request), expected(false));
    request.staging = Some(false);
    assert_eq!(issuer.issue_certificate(&request), expected(false));
    request.staging = Some(true);
    assert_eq!(issuer.issue_certificate(&request), expected(true));
    match issuer.process_request(&request, IssuanceEvent::Issued { expiry: Some(1234) }) {
        IssuanceAction::Finish { record } => assert_eq!(record.expiry, Some("1234".to_string())),
        other => panic!("unexpected {:?}", other),
    }
    match issuer.process_request(&request, IssuanceEvent::Issued { expiry: None }) {
        IssuanceAction::Finish { record } => {
            assert_eq!(record.expiry, None);
            assert_eq!(record.status, "issued");
        }
        other => panic!("unexpected {:?}", other),
    }
}

#[test]
fn every_failure_ends_in_a_failed_record() {
    let issuer = issuer();
    let request = request(None);
    assert_eq!(
        issuer.process_request(
            &request,
            IssuanceEvent::Resolved { addresses: vec!["8.8.8.8".to_string()] }
        ),
        failed(
            "Domain validation failed: Domain example.com does not resolve to a valid IP (local: 127.0.0.1 or public: 203.0.113.7)"
        )
    );
    assert_eq!(
        issuer.process_request(
            &request,
            IssuanceEvent::ResolveFailed { reason: "no such host".to_string() }
        ),
        failed("Domain validation failed: no such host")
    );
    assert_eq!(
        issuer.process_request(&request, IssuanceEvent::ToolFailed { stderr: "rate limited".to_string() }),
        failed("Certificate issuance failed: Certbot failed: rate limited")
    );
    assert_eq!(
        issuer.process_request(&request, IssuanceEvent::FilesMissing),
        failed("Certificate issuance failed: Certificate files were not created")
    );
    assert_eq!(
        issuer.process_request(&request, IssuanceEvent::IoFailed { reason: "read-only".to_string() }),
        failed("Certificate issuance failed: read-only")
    );
}

#[test]
fn certbot_certs_are_found_where_files_are_present() {
    let domains: Vec<String> = ["a.com", "b.com", "c.com"].iter().map(|s| s.to_string()).collect();
    let certs = find_certbot_certs(&domains, &[true, false, true]);
    assert_eq!(
        certs,
        vec![
            DomainCert {
                domain: "a.com".to_string(),
                cert_path: "certbot/letsencrypt/live/a.com/fullchain.pem".to_string(),
                key_path: "certbot/letsencrypt/live/a.com/privkey.pem".to_string(),
            },
            DomainCert {
                domain: "c.com".to_string(),
                cert_path: "certbot/letsencrypt/live/c.com/fullchain.pem".to_string(),
                key_path: "certbot/letsencrypt/live/c.com/privkey.pem".to_string(),
            },
        ]
    );
    assert_eq!(find_certbot_certs(&domains, &[true]).len(), 1);
    assert_eq!(find_certbot_certs(&domains, &[]).len(), 0);
    assert_eq!(find_certbot_certs(&[], &[true, true]).len(), 0);
    assert_eq!(
        certificate_files("a.com"),
        (
            "certbot/letsencrypt/live/a.com/fullchain.pem".to_string(),
            "certbot/letsencrypt/live/a.com/privkey.pem".to_string()
        )
    );
    assert_eq!(live_file("d", "x", "f"), "d/x/f");
}
