use domain_proxy::proxy::utils::{
    candidate, clean_backend_address, extract_hostname, hostname_from_capture, is_numeric,
    parse_swarm_target, resolve_swarm_service, separator_noise, strategy, trim_separator_noise,
    validate_tenant_access, ResolutionStrategy,
    ResolveEvent, ResolveStep, HOST_PATTERN,
};

#[test]
fn parse_target_with_tenant() {
    assert_eq!(
        parse_swarm_target("org1.svc.net:8080"),
        ("tasks.svc".to_string(), 8080, Some("org1".to_string()))
    );
}

#[test]
fn parse_target_literal_address() {
    assert_eq!(parse_swarm_target("10.0.0.5:80"), ("10.0.0.5".to_string(), 80, None));
}

#[test]
fn parse_target_port_defaults() {
    assert_eq!(parse_swarm_target("org1.svc.net"), ("tasks.svc".to_string(), 80, Some("org1".to_string())));
    assert_eq!(parse_swarm_target("org1.svc.net:"), ("tasks.svc".to_string(), 80, Some("org1".to_string())));
    assert_eq!(parse_swarm_target("org1.svc.net:http"), ("tasks.svc".to_string(), 80, Some("org1".to_string())));
    assert_eq!(parse_swarm_target("org1.svc.net:70000"), ("tasks.svc".to_string(), 80, Some("org1".to_string())));
    assert_eq!(parse_swarm_target("localhost"), ("localhost".to_string(), 80, None));
    assert_eq!(parse_swarm_target(""), ("".to_string(), 80, None));
}

#[test]
fn parse_target_splits_on_the_last_colon() {
    assert_eq!(parse_swarm_target("a:b:9000"), ("a:b".to_string(), 9000, None));
    assert_eq!(parse_swarm_target(":9000"), ("".to_string(), 9000, None));
}

#[test]
fn parse_target_task_form_stands() {
    assert_eq!(parse_swarm_target("tasks.web:8080"), ("tasks.web".to_string(), 8080, None));
    assert_eq!(parse_swarm_target("tasks.web.net:8080"), ("tasks.web.net".to_string(), 8080, None));
    assert_eq!(parse_swarm_target("tasks."), ("tasks.".to_string(), 80, None));
}

#[test]
fn parse_target_two_labels_name_a_service() {
    assert_eq!(parse_swarm_target("web.overlay:3000"), ("tasks.web".to_string(), 3000, None));
    assert_eq!(parse_swarm_target("10.5"), ("tasks.10".to_string(), 80, None));
}

#[test]
fn parse_target_numeric_first_label_is_literal() {
    assert_eq!(parse_swarm_target("192.168.1.10:8443"), ("192.168.1.10".to_string(), 8443, None));
    assert_eq!(parse_swarm_target("1.svc.net"), ("1.svc.net".to_string(), 80, None));
    assert_eq!(
        parse_swarm_target("1a.svc.net"),
        ("tasks.svc".to_string(), 80, Some("1a".to_string()))
    );
    assert_eq!(parse_swarm_target(".svc.net"), ("tasks.svc".to_string(), 80, Some("".to_string())));
}

#[test]
fn is_numeric_wants_digits_only() {
    assert!(is_numeric("10"));
    assert!(is_numeric("0"));
    assert!(!is_numeric(""));
    assert!(!is_numeric("1a"));
    assert!(!is_numeric("-1"));
}

#[test]
fn clean_backend_address_trims_and_adds_the_port() {
    assert_eq!(clean_backend_address("1.2.3.4:80,"), "1.2.3.4:80");
    assert_eq!(clean_backend_address("1.2.3.4:80 ; ,"), "1.2.3.4:80");
    assert_eq!(clean_backend_address("backend"), "backend:80");
    assert_eq!(clean_backend_address("backend,,"), "backend:80");
    assert_eq!(clean_backend_address(""), ":80");
    assert_eq!(clean_backend_address(", backend:1"), ", backend:1");
    assert_eq!(clean_backend_address("backend:1\t\n"), "backend:1");
    assert_eq!(clean_backend_address(" ;,\u{a0}"), ":80");
}

#[test]
fn separator_noise_is_commas_semicolons_and_white_space() {
    assert_eq!(trim_separator_noise("1.2.3.4:80,; \t,"), "1.2.3.4:80");
    assert_eq!(trim_separator_noise("a/"), "a/");
    assert_eq!(trim_separator_noise(""), "");
    assert!(separator_noise(',') && separator_noise(';') && separator_noise(' '));
    assert!(separator_noise('\n') && !separator_noise('/') && !separator_noise(':'));
}

#[test]
fn extract_hostname_reads_the_host() {
    assert_eq!(
        extract_hostname("GET /index.html, Host: example.com"),
        Some("example.com".to_string())
    );
    assert_eq!(extract_hostname("GET /, Host:a.com:8080, more"), Some("a.com:8080".to_string()));
    assert_eq!(extract_hostname("GET /, Host:   spaced.org\tx"), Some("spaced.org".to_string()));
    assert_eq!(extract_hostname("GET /index.html"), None);
    assert_eq!(extract_hostname("GET /, Host: "), None);
    assert_eq!(extract_hostname("GET /, host: lower.case"), None);
    assert_eq!(extract_hostname(""), None);
}

#[test]
fn hostname_from_capture_maps_each_outcome() {
    assert_eq!(hostname_from_capture(Ok(Some("a.com".to_string()))), Some("a.com".to_string()));
    assert_eq!(hostname_from_capture(Ok(None)), None);
    let broken = regex::Regex::new("(").unwrap_err();
    assert_eq!(hostname_from_capture(Err(broken)), None);
    assert!(regex::Regex::new(HOST_PATTERN).is_ok());
}

#[test]
fn validate_tenant_access_is_textual() {
    assert!(validate_tenant_access("org1-web.internal", "org1"));
    assert!(validate_tenant_access("tasks.web", "org1"));
    assert!(!validate_tenant_access("web.internal", "org1"));
    assert!(!validate_tenant_access("", "org1"));
    assert!(validate_tenant_access("web", ""));
}

#[test]
fn candidates_come_in_the_fixed_order() {
    let names: Vec<String> = (0..5).map(|i| candidate(strategy(i), "web", 8080)).collect();
    assert_eq!(
        names,
        vec!["web", "web:8080", "tasks.web", "tasks.web:8080", "web.ingress:8080"]
    );
    assert_eq!(strategy(0), ResolutionStrategy::AsGiven);
    assert_eq!(strategy(4), ResolutionStrategy::IngressWithPort);
    assert_eq!(strategy(17), ResolutionStrategy::IngressWithPort);
}

#[test]
fn resolution_takes_the_first_live_candidate() {
    let step = resolve_swarm_service("web", 80, ResolveEvent::Begin);
    assert_eq!(step, ResolveStep::Probe { attempt: 0, candidate: "web".to_string() });
    let step = resolve_swarm_service("web", 80, ResolveEvent::Probed { attempt: 0, address: None });
    assert_eq!(step, ResolveStep::Probe { attempt: 1, candidate: "web:80".to_string() });
    let step = resolve_swarm_service(
        "web",
        80,
        ResolveEvent::Probed { attempt: 1, address: Some("10.0.0.7:80".to_string()) },
    );
    assert_eq!(step, ResolveStep::Resolved { address: "10.0.0.7:80".to_string() });
}

#[test]
fn resolution_fails_after_the_last_strategy() {
    let mut event = ResolveEvent::Begin;
    let mut probes = 0;
    loop {
        match resolve_swarm_service("db", 5432, event) {
            ResolveStep::Probe { attempt, candidate: _ } => {
                assert_eq!(attempt, probes);
                probes += 1;
                event = ResolveEvent::Probed { attempt, address: None };
            }
            ResolveStep::Resolved { address } => panic!("nothing answered, yet {}", address),
            ResolveStep::Failed { message } => {
                assert_eq!(message, "Could not resolve service: db");
                break;
            }
        }
    }
    assert_eq!(probes, 5);
    let late = resolve_swarm_service("db", 5432, ResolveEvent::Probed { attempt: 99, address: None });
    assert_eq!(late, ResolveStep::Failed { message: "Could not resolve service: db".to_string() });
    let edge = resolve_swarm_service(
        "db",
        5432,
        ResolveEvent::Probed { attempt: usize::MAX, address: None },
    );
    assert_eq!(edge, ResolveStep::Failed { message: "Could not resolve service: db".to_string() });
}
