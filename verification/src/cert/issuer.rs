//! The certificate lifecycle: a domain is validated, an existing
//! certificate is checked, and a certificate is issued where one is
//! wanted.
//!
//! The flow is decided here and carried out by the caller. The caller
//! starts with `IssuanceEvent::Start`, performs each action that
//! `process_request` returns and reports what came of it as the next
//! event, until the action is `Finish`. Time and the state of the disk
//! come in as plain values. A request never fails with an error: what goes
//! wrong ends in a record with status `failed`.

use crate::calendar;
use crate::cert::certbot::{live_file, live_path, CERT_FILE, KEY_FILE};
use crate::text;
use vstd::prelude::*;
use vstd::string::*;

verus! {

/// The seconds before its expiry from which a certificate counts as
/// expiring soon: thirty days.
pub const RENEWAL_WINDOW_SECS: u64 = 2592000;

/// The seconds to wait after a domain was validated, for the name service
/// to settle.
pub const VALIDATION_DELAY_SECS: u64 = 1;

/// The address given out where the host's public address is not known.
pub const UNKNOWN_PUBLIC_IP: &'static str = "0.0.0.0";

/// The expiry that a placeholder certificate reports.
pub const PLACEHOLDER_EXPIRY: &'static str = "2099-12-31T23:59:59Z";

/// What a placeholder certificate file holds.
pub const PLACEHOLDER_CERTIFICATE: &'static str = "DUMMY CERTIFICATE FOR TESTING\n";

/// What a placeholder key file holds.
pub const PLACEHOLDER_KEY: &'static str = "DUMMY PRIVATE KEY FOR TESTING\n";

/// What the line that reports a certificate's end date begins with.
pub const END_DATE_PREFIX: &'static str = "notAfter=";

/// The time zone in which an end date is reported.
pub const END_DATE_ZONE: &'static str = "GMT";

/// The program of the issuance tool.
pub const ISSUANCE_TOOL: &'static str = "certbot";

/// The directory in which the issuance tool leaves its challenge proofs.
pub const CHALLENGE_WEBROOT: &'static str = "/var/www/html";

/// A request for a certificate.
#[derive(Debug, Clone, PartialEq, Eq)]
pub struct CertificateRequest {
    pub domain: String,
    pub email: String,
    /// Ask the staging service of the authority.
    pub staging: Option<bool>,
    /// Issue even where a certificate exists.
    pub force_renew: Option<bool>,
}

/// The record of a domain's certificate.
#[derive(Debug, Clone, PartialEq, Eq)]
pub struct CertificateStatus {
    pub domain: String,
    /// One of `valid`, `expiring_soon`, `unknown_expiry`, `issued`,
    /// `failed`, `not_found`.
    pub status: String,
    pub cert_path: Option<String>,
    pub key_path: Option<String>,
    pub expiry: Option<String>,
    pub error: Option<String>,
}

/// The model of a `CertificateStatus`.
pub struct StatusView {
    pub domain: Seq<char>,
    pub status: Seq<char>,
    pub cert_path: Option<Seq<char>>,
    pub key_path: Option<Seq<char>>,
    pub expiry: Option<Seq<char>>,
    pub error: Option<Seq<char>>,
}

impl View for CertificateStatus {
    type V = StatusView;

    open spec fn view(&self) -> StatusView {
        StatusView {
            domain: self.domain@,
            status: self.status@,
            cert_path: self.cert_path.deep_view(),
            key_path: self.key_path.deep_view(),
            expiry: self.expiry.deep_view(),
            error: self.error.deep_view(),
        }
    }
}

/// The files that an issuance reads and writes.
#[derive(Debug, Clone, PartialEq, Eq)]
pub struct ArtifactPaths {
    /// The directory of the domain under the tool's `live` directory.
    pub live_dir: String,
    pub cert_path: String,
    pub key_path: String,
    /// The directory of the domain under the output directory.
    pub output_dir: String,
    pub output_cert: String,
    pub output_key: String,
}

/// How a certificate is to be made.
#[derive(Debug, Clone, PartialEq, Eq)]
pub enum IssuancePlan {
    /// Write placeholder files: `certificate` to the certificate path and
    /// `key` to the key path.
    Placeholder { certificate: String, key: String },
    /// Run `program` with `arguments`.
    Tool { program: String, arguments: Vec<String> },
}

/// What the flow learns between two of its steps.
#[derive(Debug, Clone, PartialEq, Eq)]
pub enum IssuanceEvent {
    /// Nothing yet: the request has come in.
    Start,
    /// The domain's name was looked up; `addresses` are the addresses
    /// found, as text.
    Resolved { addresses: Vec<String> },
    /// The domain's name could not be looked up.
    ResolveFailed { reason: String },
    /// The certificate files were looked for. `present` says whether both
    /// exist; `expiry` is when the certificate expires, in seconds since
    /// the epoch, where that could be read; `now` is the time of the check.
    Inspected { present: bool, expiry: Option<u64>, now: u64 },
    /// The plan was carried out and the files were copied to the output
    /// directory. `expiry` is the expiry read from a certificate that the
    /// tool issued.
    Issued { expiry: Option<u64> },
    /// The issuance tool reported failure; `stderr` is what it wrote.
    ToolFailed { stderr: String },
    /// The tool reported success and left no certificate files.
    FilesMissing,
    /// A file could not be written or copied, or the tool not be run.
    IoFailed { reason: String },
}

/// What the caller does next for a certificate request.
#[derive(Debug, Clone, PartialEq, Eq)]
pub enum IssuanceAction {
    /// Look `host` up and report `Resolved` or `ResolveFailed`.
    Resolve { host: String },
    /// Look for the certificate files and report `Inspected`.
    Inspect { cert_path: String, key_path: String },
    /// Make the certificate as `plan` says, copy it to the output
    /// directory, and report `Issued` or what went wrong.
    Issue { paths: ArtifactPaths, plan: IssuancePlan },
    /// The flow is over: `record` is its result.
    Finish { record: CertificateStatus },
}

/// The record of a failure.
pub open spec fn failed_view(domain: Seq<char>, text: Seq<char>) -> StatusView {
    StatusView {
        domain,
        status: "failed"@,
        cert_path: None,
        key_path: None,
        expiry: None,
        error: Some(text),
    }
}

/// The record given out where a domain has no certificate.
pub open spec fn not_found_view(domain: Seq<char>) -> StatusView {
    StatusView {
        domain,
        status: "not_found"@,
        cert_path: None,
        key_path: None,
        expiry: None,
        error: None,
    }
}

/// The record of a certificate whose files exist.
pub open spec fn existing_view(
    certbot_dir: Seq<char>,
    domain: Seq<char>,
    expiry: Option<u64>,
    now: u64,
) -> StatusView {
    let live = certbot_dir + "/live"@;
    StatusView {
        domain,
        status: match expiry {
            Some(at) => if at > now + RENEWAL_WINDOW_SECS {
                "valid"@
            } else {
                "expiring_soon"@
            },
            None => "unknown_expiry"@,
        },
        cert_path: Some(live_path(live, domain, CERT_FILE@)),
        key_path: Some(live_path(live, domain, KEY_FILE@)),
        expiry: match expiry {
            Some(at) => Some(text::decimal_text(at as nat)),
            None => None,
        },
        error: match expiry {
            Some(_) => None,
            None => Some("Could not determine certificate expiry"@),
        },
    }
}

/// What a check of a domain's certificate reports: nothing where the
/// files are not both there, and the record of the existing certificate
/// otherwise.
pub open spec fn check_view(
    certbot_dir: Seq<char>,
    domain: Seq<char>,
    present: bool,
    expiry: Option<u64>,
    now: u64,
) -> Option<StatusView> {
    if present {
        Some(existing_view(certbot_dir, domain, expiry, now))
    } else {
        None
    }
}

/// The record of a certificate that was just issued.
pub open spec fn issued_view(
    certbot_dir: Seq<char>,
    domain: Seq<char>,
    expiry: Option<Seq<char>>,
) -> StatusView {
    let live = certbot_dir + "/live"@;
    StatusView {
        domain,
        status: "issued"@,
        cert_path: Some(live_path(live, domain, CERT_FILE@)),
        key_path: Some(live_path(live, domain, KEY_FILE@)),
        expiry,
        error: None,
    }
}

/// A field of a date that is a number below 256.
pub open spec fn small_number(field: Seq<char>) -> Option<u8> {
    match text::parse_u16_spec(field) {
        Some(n) => if n <= 255 {
            Some(n as u8)
        } else {
            None
        },
        None => None,
    }
}

/// The moment that the fields of an end date name, in seconds since the
/// epoch: the month by its abbreviation, the day, the time of day as
/// `hour:minute:second`, the year, and the zone, which has to be `GMT`.
pub open spec fn end_date_of(fields: Seq<Seq<char>>) -> Option<u64> {
    if fields.len() == 5 && fields[4] == END_DATE_ZONE@ && text::split_on(fields[2], ':').len()
        == 3 {
        let clock = text::split_on(fields[2], ':');
        match (
            calendar::month_number(fields[0]),
            small_number(fields[1]),
            small_number(clock[0]),
            small_number(clock[1]),
            small_number(clock[2]),
            text::parse_u16_spec(fields[3]),
        ) {
            (Some(month), Some(day), Some(hour), Some(minute), Some(second), Some(year)) => if calendar::valid_date(
                year as int,
                month as int,
                day as int,
            ) && calendar::valid_time(hour as int, minute as int, second as int) {
                Some(
                    calendar::epoch_seconds(
                        year as int,
                        month as int,
                        day as int,
                        hour as int,
                        minute as int,
                        second as int,
                    ) as u64,
                )
            } else {
                None
            },
            _ => None,
        }
    } else {
        None
    }
}

/// The expiry that the certificate tool reports: its output has to begin
/// with `notAfter=`, and what follows has to be an end date, as in
/// `notAfter=May 15 23:59:59 2024 GMT`.
pub open spec fn reported_expiry(output: Seq<char>) -> Option<u64> {
    if text::has_prefix(output, END_DATE_PREFIX@) {
        end_date_of(text::words(output.skip(END_DATE_PREFIX@.len() as int)))
    } else {
        None
    }
}

/// Whether an address is one that a fronted domain may resolve to: the
/// loopback address, the host's public address, or an address under a
/// private-network prefix. The rule is permissive on purpose, so that a
/// local or staging host passes.
pub open spec fn address_accepted(public_ip: Seq<char>, ip: Seq<char>) -> bool {
    ip == "127.0.0.1"@ || ip == "localhost"@ || ip == public_ip || text::has_prefix(
        ip,
        "192.168."@,
    ) || text::has_prefix(ip, "10."@)
}

/// Whether one of `addresses` is accepted.
pub open spec fn any_accepted(public_ip: Seq<char>, addresses: Seq<Seq<char>>) -> bool {
    exists|i: int| 0 <= i < addresses.len() && address_accepted(public_ip, #[trigger] addresses[i])
}

/// The text that reports a domain that resolves to no accepted address.
pub open spec fn unaccepted_text(domain: Seq<char>, public_ip: Seq<char>) -> Seq<char> {
    "Domain "@ + domain + " does not resolve to a valid IP (local: 127.0.0.1 or public: "@
        + public_ip + ")"@
}

/// Whether a request asks to issue even where a certificate exists.
pub open spec fn renewal_forced(force_renew: Option<bool>) -> bool {
    force_renew == Some(true)
}

/// Whether a record stands for certificate and key files that can be
/// used: every record does, but a failure and a certificate not found.
pub open spec fn status_usable(status: Seq<char>) -> bool {
    status != "failed"@ && status != "not_found"@
}

/// The arguments with which the issuance tool is run.
pub open spec fn tool_arguments(
    certbot_dir: Seq<char>,
    domain: Seq<char>,
    email: Seq<char>,
    staging: bool,
) -> Seq<Seq<char>> {
    let always = seq![
        "certonly"@,
        "--webroot"@,
        "-w"@,
        CHALLENGE_WEBROOT@,
        "--email"@,
        email,
        "--agree-tos"@,
        "--no-eff-email"@,
        "-d"@,
        domain,
        "--config-dir"@,
        certbot_dir,
    ];
    if staging {
        always.push("--staging"@)
    } else {
        always
    }
}

/// Manages the certificates of the fronted domains.
#[derive(Debug, Clone, PartialEq, Eq)]
pub struct CertificateIssuer {
    /// The directory of the issuance tool.
    pub certbot_dir: String,
    /// The directory that receives issued certificates.
    pub output_dir: String,
    /// The public address of this host.
    pub public_ip: String,
    /// Make placeholder certificates in place of running the tool.
    pub dummy_testing: bool,
}

impl CertificateIssuer {
    /// An issuer over the two directories. `public_ip` is the host's
    /// public address where it is known. Placeholder certificates are
    /// made until `dummy_testing` is switched off.
    pub fn new(certbot_dir: &str, output_dir: &str, public_ip: Option<String>) -> (r:
        CertificateIssuer)
        ensures
            r.certbot_dir@ == certbot_dir@,
            r.output_dir@ == output_dir@,
            r.public_ip@ == (match public_ip {
                Some(ip) => ip@,
                None => UNKNOWN_PUBLIC_IP@,
            }),
            r.dummy_testing,
    {
        CertificateIssuer {
            certbot_dir: String::from_str(certbot_dir),
            output_dir: String::from_str(output_dir),
            public_ip: match public_ip {
                Some(ip) => ip,
                None => String::from_str(UNKNOWN_PUBLIC_IP),
            },
            dummy_testing: true,
        }
    }

    /// The public address that an address service reported: its output
    /// without surrounding white space, and none where the query failed.
    pub fn get_public_ip(succeeded: bool, output: &str) -> (r: Option<String>)
        ensures
            r.deep_view() == (if succeeded {
                Some(text::trim_space(output@))
            } else {
                None
            }),
    {
        if succeeded {
            Some(text::trim(output))
        } else {
            None
        }
    }

    /// A field of a date that is a number below 256.
    fn small_field(field: &str) -> (r: Option<u8>)
        ensures
            r == small_number(field@),
    {
        match text::parse_u16(field) {
            Some(n) => if n <= 255 {
                Some(n as u8)
            } else {
                None
            },
            None => None,
        }
    }

    /// The expiry of a certificate, in seconds since the epoch, read from
    /// what the certificate tool printed when asked for the end date;
    /// none where the tool failed or printed something else.
    pub fn get_cert_expiry(succeeded: bool, output: &str) -> (r: Option<u64>)
        ensures
            r == (if succeeded {
                reported_expiry(output@)
            } else {
                None
            }),
    {
        if !succeeded || !text::starts_with(output, END_DATE_PREFIX) {
            return None;
        }
        let skip = END_DATE_PREFIX.unicode_len();
        let total = output.unicode_len();
        proof {
            assert(output@.subrange(skip as int, total as int) == output@.skip(skip as int));
        }
        let fields = text::split_whitespace(output.substring_char(skip, total));
        if fields.len() != 5 || !text::equal(fields[4].as_str(), END_DATE_ZONE) {
            return None;
        }
        let clock = text::split(fields[2].as_str(), ':');
        if clock.len() != 3 {
            return None;
        }
        let month = calendar::month_from_name(fields[0].as_str());
        let day = Self::small_field(fields[1].as_str());
        let hour = Self::small_field(clock[0].as_str());
        let minute = Self::small_field(clock[1].as_str());
        let second = Self::small_field(clock[2].as_str());
        let year = text::parse_u16(fields[3].as_str());
        match (month, day, hour, minute, second, year) {
            (Some(month), Some(day), Some(hour), Some(minute), Some(second), Some(year)) => {
                calendar::seconds_since_epoch(year, month, day, hour, minute, second)
            },
            _ => None,
        }
    }

    /// The name under which a domain is looked up for validation.
    pub fn lookup_host(domain: &str) -> (r: String)
        ensures
            r@ == domain@ + ":443"@,
    {
        String::from_str(domain).concat(":443")
    }

    /// Whether `ip` is an address that a fronted domain may resolve to.
    pub fn accepts_address(&self, ip: &str) -> (r: bool)
        ensures
            r == address_accepted(self.public_ip@, ip@),
    {
        text::equal(ip, "127.0.0.1") || text::equal(ip, "localhost") || text::equal(
            ip,
            self.public_ip.as_str(),
        ) || text::starts_with(ip, "192.168.") || text::starts_with(ip, "10.")
    }

    /// Validates that `domain` points at this host: one of the addresses
    /// it resolves to has to be accepted.
    pub fn validate_domain(&self, domain: &str, addresses: &[String]) -> (r: Result<(), String>)
        ensures
            any_accepted(self.public_ip@, addresses.deep_view()) ==> r is Ok,
            !any_accepted(self.public_ip@, addresses.deep_view()) ==> (r matches Err(text)
                && text@ == unaccepted_text(domain@, self.public_ip@)),
    {
        let mut i: usize = 0;
        while i < addresses.len()
            invariant
                i <= addresses.len(),
                forall|j: int|
                    0 <= j < i ==> !address_accepted(
                        self.public_ip@,
                        #[trigger] addresses.deep_view()[j],
                    ),
            decreases addresses.len() - i,
        {
            if self.accepts_address(addresses[i].as_str()) {
                proof {
                    assert(address_accepted(self.public_ip@, addresses.deep_view()[i as int]));
                }
                return Ok(());
            }
            i += 1;
        }
        Err(
            String::from_str("Domain ").concat(domain).concat(
                " does not resolve to a valid IP (local: 127.0.0.1 or public: ",
            ).concat(self.public_ip.as_str()).concat(")"),
        )
    }

    /// The `live` directory of the issuance tool.
    fn live_root(&self) -> (r: String)
        ensures
            r@ == self.certbot_dir@ + "/live"@,
    {
        self.certbot_dir.clone().concat("/live")
    }

    /// Reports on the certificate that exists for `domain`. `present`
    /// says whether the certificate and key files are both there; `expiry`
    /// is the certificate's expiry in seconds since the epoch, where it
    /// could be read; `now` is the current time on the same scale.
    ///
    /// A certificate that expires more than thirty days from `now` is
    /// `valid`, any other `expiring_soon`, and one whose expiry is not
    /// known `unknown_expiry`. All three name the files.
    pub fn check_certificate(&self, domain: &str, present: bool, expiry: Option<u64>, now: u64) -> (r:
        Option<CertificateStatus>)
        ensures
            r.is_some() == present,
            (match r {
                Some(record) => Some(record@),
                None => None,
            }) == check_view(self.certbot_dir@, domain@, present, expiry, now),
    {
        if !present {
            return None;
        }
        let live = self.live_root();
        let cert_path = live_file(live.as_str(), domain, CERT_FILE);
        let key_path = live_file(live.as_str(), domain, KEY_FILE);
        match expiry {
            Some(at) => {
                let status = if at > now && at - now > RENEWAL_WINDOW_SECS {
                    "valid"
                } else {
                    "expiring_soon"
                };
                Some(
                    CertificateStatus {
                        domain: String::from_str(domain),
                        status: String::from_str(status),
                        cert_path: Some(cert_path),
                        key_path: Some(key_path),
                        expiry: Some(text::decimal_string(at)),
                        error: None,
                    },
                )
            },
            None => Some(
                CertificateStatus {
                    domain: String::from_str(domain),
                    status: String::from_str("unknown_expiry"),
                    cert_path: Some(cert_path),
                    key_path: Some(key_path),
                    expiry: None,
                    error: Some(String::from_str("Could not determine certificate expiry")),
                },
            ),
        }
    }

    /// The record given out where `domain` has no certificate.
    pub fn not_found(domain: &str) -> (r: CertificateStatus)
        ensures
            r@ == not_found_view(domain@),
    {
        CertificateStatus {
            domain: String::from_str(domain),
            status: String::from_str("not_found"),
            cert_path: None,
            key_path: None,
            expiry: None,
            error: None,
        }
    }

    /// The record of a failure.
    pub fn failed(domain: &str, error: String) -> (r: CertificateStatus)
        ensures
            r@ == failed_view(domain@, error@),
    {
        CertificateStatus {
            domain: String::from_str(domain),
            status: String::from_str("failed"),
            cert_path: None,
            key_path: None,
            expiry: None,
            error: Some(error),
        }
    }

    /// Whether `paths` are the files of `domain`: its certificate and key
    /// under the tool's `live` directory, and their copies under the
    /// output directory.
    pub open spec fn paths_of(&self, domain: Seq<char>, paths: ArtifactPaths) -> bool {
        &&& paths.live_dir@ == self.certbot_dir@ + "/live/"@ + domain
        &&& paths.cert_path@ == live_path(self.certbot_dir@ + "/live"@, domain, CERT_FILE@)
        &&& paths.key_path@ == live_path(self.certbot_dir@ + "/live"@, domain, KEY_FILE@)
        &&& paths.output_dir@ == self.output_dir@ + "/"@ + domain
        &&& paths.output_cert@ == live_path(self.output_dir@, domain, CERT_FILE@)
        &&& paths.output_key@ == live_path(self.output_dir@, domain, KEY_FILE@)
    }

    /// Whether `plan` is how the certificate for `request` is made:
    /// placeholder files in dummy mode, and otherwise a run of the
    /// issuance tool with the arguments for the request.
    pub open spec fn plan_of(&self, request: &CertificateRequest, plan: IssuancePlan) -> bool {
        if self.dummy_testing {
            plan matches IssuancePlan::Placeholder { certificate, key } && certificate@
                == PLACEHOLDER_CERTIFICATE@ && key@ == PLACEHOLDER_KEY@
        } else {
            plan matches IssuancePlan::Tool { program, arguments } && program@ == ISSUANCE_TOOL@
                && arguments.deep_view() == tool_arguments(
                self.certbot_dir@,
                request.domain@,
                request.email@,
                request.staging == Some(true),
            )
        }
    }

    /// The files that an issuance for `domain` reads and writes.
    pub fn artifact_paths(&self, domain: &str) -> (r: ArtifactPaths)
        ensures
            self.paths_of(domain@, r),
    {
        let live = self.live_root();
        ArtifactPaths {
            live_dir: self.certbot_dir.clone().concat("/live/").concat(domain),
            cert_path: live_file(live.as_str(), domain, CERT_FILE),
            key_path: live_file(live.as_str(), domain, KEY_FILE),
            output_dir: self.output_dir.clone().concat("/").concat(domain),
            output_cert: live_file(self.output_dir.as_str(), domain, CERT_FILE),
            output_key: live_file(self.output_dir.as_str(), domain, KEY_FILE),
        }
    }

    /// How the certificate that `request` asks for is to be made:
    /// placeholder files in dummy mode, and otherwise a run of the
    /// issuance tool.
    pub fn issue_certificate(&self, request: &CertificateRequest) -> (r: IssuancePlan)
        ensures
            self.plan_of(request, r),
    {
        if self.dummy_testing {
            return IssuancePlan::Placeholder {
                certificate: String::from_str(PLACEHOLDER_CERTIFICATE),
                key: String::from_str(PLACEHOLDER_KEY),
            };
        }
        let mut arguments: Vec<String> = Vec::new();
        arguments.push(String::from_str("certonly"));
        arguments.push(String::from_str("--webroot"));
        arguments.push(String::from_str("-w"));
        arguments.push(String::from_str(CHALLENGE_WEBROOT));
        arguments.push(String::from_str("--email"));
        arguments.push(request.email.clone());
        arguments.push(String::from_str("--agree-tos"));
        arguments.push(String::from_str("--no-eff-email"));
        arguments.push(String::from_str("-d"));
        arguments.push(request.domain.clone());
        arguments.push(String::from_str("--config-dir"));
        arguments.push(self.certbot_dir.clone());
        let staging = match request.staging {
            Some(on) => on,
            None => false,
        };
        if staging {
            arguments.push(String::from_str("--staging"));
        }
        proof {
            assert(arguments.deep_view() == tool_arguments(
                self.certbot_dir@,
                request.domain@,
                request.email@,
                request.staging == Some(true),
            ));
        }
        IssuancePlan::Tool { program: String::from_str(ISSUANCE_TOOL), arguments }
    }

    /// The record of the certificate just issued for `domain`.
    pub fn issued(&self, domain: &str, expiry: Option<String>) -> (r: CertificateStatus)
        ensures
            r@ == issued_view(self.certbot_dir@, domain@, expiry.deep_view()),
    {
        let live = self.live_root();
        CertificateStatus {
            domain: String::from_str(domain),
            status: String::from_str("issued"),
            cert_path: Some(live_file(live.as_str(), domain, CERT_FILE)),
            key_path: Some(live_file(live.as_str(), domain, KEY_FILE)),
            expiry,
            error: None,
        }
    }

    /// The action that issues the certificate for `request`.
    fn start_issuance(&self, request: &CertificateRequest) -> (r: IssuanceAction)
        ensures
            r matches IssuanceAction::Issue { paths, plan } && self.paths_of(
                request.domain@,
                paths,
            ) && self.plan_of(request, plan),
    {
        IssuanceAction::Issue {
            paths: self.artifact_paths(request.domain.as_str()),
            plan: self.issue_certificate(request),
        }
    }

    /// One step of the flow for `request`.
    ///
    /// The domain is validated first. Unless the request forces a
    /// renewal, an existing certificate is then reported as it is, be it
    /// valid, expiring soon or of unknown expiry. Otherwise a certificate
    /// is issued. Every failure ends the flow with a `failed` record that
    /// says what failed.
    pub fn process_request(&self, request: &CertificateRequest, event: IssuanceEvent) -> (r:
        IssuanceAction)
        ensures
            match event {
                IssuanceEvent::Start => r matches IssuanceAction::Resolve { host } && host@
                    == request.domain@ + ":443"@,
                IssuanceEvent::Resolved { addresses } => if !any_accepted(
                    self.public_ip@,
                    addresses.deep_view(),
                ) {
                    r matches IssuanceAction::Finish { record } && record@ == failed_view(
                        request.domain@,
                        "Domain validation failed: "@ + unaccepted_text(
                            request.domain@,
                            self.public_ip@,
                        ),
                    )
                } else if renewal_forced(request.force_renew) {
                    r is Issue
                } else {
                    r matches IssuanceAction::Inspect { cert_path, key_path } && cert_path@
                        == live_path(self.certbot_dir@ + "/live"@, request.domain@, CERT_FILE@)
                        && key_path@ == live_path(
                        self.certbot_dir@ + "/live"@,
                        request.domain@,
                        KEY_FILE@,
                    )
                },
                IssuanceEvent::ResolveFailed { reason } => r matches IssuanceAction::Finish {
                    record,
                } && record@ == failed_view(
                    request.domain@,
                    "Domain validation failed: "@ + reason@,
                ),
                IssuanceEvent::Inspected { present, expiry, now } => if present {
                    r matches IssuanceAction::Finish { record } && record@ == existing_view(
                        self.certbot_dir@,
                        request.domain@,
                        expiry,
                        now,
                    )
                } else {
                    r is Issue
                },
                IssuanceEvent::Issued { expiry } => r matches IssuanceAction::Finish { record }
                    && record@ == issued_view(
                    self.certbot_dir@,
                    request.domain@,
                    if self.dummy_testing {
                        Some(PLACEHOLDER_EXPIRY@)
                    } else {
                        match expiry {
                            Some(at) => Some(text::decimal_text(at as nat)),
                            None => None,
                        }
                    },
                ),
                IssuanceEvent::ToolFailed { stderr } => r matches IssuanceAction::Finish { record }
                    && record@ == failed_view(
                    request.domain@,
                    "Certificate issuance failed: Certbot failed: "@ + stderr@,
                ),
                IssuanceEvent::FilesMissing => r matches IssuanceAction::Finish { record }
                    && record@ == failed_view(
                    request.domain@,
                    "Certificate issuance failed: Certificate files were not created"@,
                ),
                IssuanceEvent::IoFailed { reason } => r matches IssuanceAction::Finish { record }
                    && record@ == failed_view(
                    request.domain@,
                    "Certificate issuance failed: "@ + reason@,
                ),
            },
            r matches IssuanceAction::Issue { paths, plan } ==> self.paths_of(
                request.domain@,
                paths,
            ) && self.plan_of(request, plan),
    {
        let domain = request.domain.as_str();
        match event {
            IssuanceEvent::Start => IssuanceAction::Resolve { host: Self::lookup_host(domain) },
            IssuanceEvent::Resolved { addresses } => {
                match self.validate_domain(domain, addresses.as_slice()) {
                    Err(reason) => IssuanceAction::Finish {
                        record: Self::failed(
                            domain,
                            String::from_str("Domain validation failed: ").concat(reason.as_str()),
                        ),
                    },
                    Ok(()) => {
                        let forced = match request.force_renew {
                            Some(on) => on,
                            None => false,
                        };
                        if forced {
                            self.start_issuance(request)
                        } else {
                            let paths = self.artifact_paths(domain);
                            IssuanceAction::Inspect {
                                cert_path: paths.cert_path,
                                key_path: paths.key_path,
                            }
                        }
                    },
                }
            },
            IssuanceEvent::ResolveFailed { reason } => IssuanceAction::Finish {
                record: Self::failed(
                    domain,
                    String::from_str("Domain validation failed: ").concat(reason.as_str()),
                ),
            },
            IssuanceEvent::Inspected { present, expiry, now } => {
                match self.check_certificate(domain, present, expiry, now) {
                    Some(record) => IssuanceAction::Finish { record },
                    None => self.start_issuance(request),
                }
            },
            IssuanceEvent::Issued { expiry } => {
                let shown = if self.dummy_testing {
                    Some(String::from_str(PLACEHOLDER_EXPIRY))
                } else {
                    match expiry {
                        Some(at) => Some(text::decimal_string(at)),
                        None => None,
                    }
                };
                IssuanceAction::Finish { record: self.issued(domain, shown) }
            },
            IssuanceEvent::ToolFailed { stderr } => IssuanceAction::Finish {
                record: Self::failed(
                    domain,
                    String::from_str("Certificate issuance failed: Certbot failed: ").concat(
                        stderr.as_str(),
                    ),
                ),
            },
            IssuanceEvent::FilesMissing => IssuanceAction::Finish {
                record: Self::failed(
                    domain,
                    String::from_str(
                        "Certificate issuance failed: Certificate files were not created",
                    ),
                ),
            },
            IssuanceEvent::IoFailed { reason } => IssuanceAction::Finish {
                record: Self::failed(
                    domain,
                    String::from_str("Certificate issuance failed: ").concat(reason.as_str()),
                ),
            },
        }
    }
}

impl CertificateStatus {
    /// Whether the record stands for certificate and key files that can
    /// be used to open a TLS listener.
    pub fn is_usable(&self) -> (r: bool)
        ensures
            r == status_usable(self.status@),
    {
        !text::equal(self.status.as_str(), "failed") && !text::equal(
            self.status.as_str(),
            "not_found",
        )
    }
}

} // verus!
