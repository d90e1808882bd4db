//! Where the issuance tool keeps the certificates it has issued.

use vstd::prelude::*;
use vstd::string::*;

verus! {

/// The directory under which the issuance tool keeps one directory per
/// domain.
pub const CERTBOT_LIVE_DIR: &'static str = "certbot/letsencrypt/live";

/// The file name of a certificate chain.
pub const CERT_FILE: &'static str = "fullchain.pem";

/// The file name of a private key.
pub const KEY_FILE: &'static str = "privkey.pem";

/// A domain with the files of its certificate.
#[derive(Debug, Clone, PartialEq, Eq)]
pub struct DomainCert {
    pub domain: String,
    pub cert_path: String,
    pub key_path: String,
}

/// The model of a `DomainCert`: domain, certificate path, key path.
pub type CertView = (Seq<char>, Seq<char>, Seq<char>);

impl View for DomainCert {
    type V = CertView;

    open spec fn view(&self) -> CertView {
        (self.domain@, self.cert_path@, self.key_path@)
    }
}

impl DeepView for DomainCert {
    type V = CertView;

    open spec fn deep_view(&self) -> CertView {
        (self.domain@, self.cert_path@, self.key_path@)
    }
}

/// The path of `file` in the directory of `domain` under `live_dir`.
pub open spec fn live_path(live_dir: Seq<char>, domain: Seq<char>, file: Seq<char>) -> Seq<char> {
    live_dir + "/"@ + domain + "/"@ + file
}

/// The certificate of `domain` as the issuance tool would have left it.
pub open spec fn cert_of(domain: Seq<char>) -> CertView {
    (
        domain,
        live_path(CERTBOT_LIVE_DIR@, domain, CERT_FILE@),
        live_path(CERTBOT_LIVE_DIR@, domain, KEY_FILE@),
    )
}

/// The certificates of those of `domains` whose files are present, in the
/// order of `domains`. `present[i]` says whether both files of
/// `domains[i]` exist; a domain that `present` does not reach has none.
pub open spec fn found_certs(domains: Seq<Seq<char>>, present: Seq<bool>) -> Seq<CertView>
    decreases domains.len(),
{
    if domains.len() == 0 {
        Seq::empty()
    } else {
        let rest = found_certs(domains.drop_last(), present);
        let i = domains.len() - 1;
        if i < present.len() && present[i] {
            rest.push(cert_of(domains.last()))
        } else {
            rest
        }
    }
}

/// The path of `file` in the directory of `domain` under `live_dir`.
pub fn live_file(live_dir: &str, domain: &str, file: &str) -> (r: String)
    ensures
        r@ == live_path(live_dir@, domain@, file@),
{
    String::from_str(live_dir).concat("/").concat(domain).concat("/").concat(file)
}

/// The certificate and key files that the issuance tool keeps for
/// `domain`.
pub fn certificate_files(domain: &str) -> (r: (String, String))
    ensures
        r.0@ == cert_of(domain@).1,
        r.1@ == cert_of(domain@).2,
{
    (live_file(CERTBOT_LIVE_DIR, domain, CERT_FILE), live_file(CERTBOT_LIVE_DIR, domain, KEY_FILE))
}

/// The certificates of the domains whose certificate and key files are
/// both present.
pub fn find_certbot_certs(domains: &[String], present: &[bool]) -> (certs: Vec<DomainCert>)
    ensures
        certs.deep_view() == found_certs(domains.deep_view(), present@),
{
    let mut certs: Vec<DomainCert> = Vec::new();
    let mut i: usize = 0;
    proof {
        assert(certs.deep_view() == Seq::<CertView>::empty());
    }
    while i < domains.len()
        invariant
            i <= domains.len(),
            certs.deep_view() == found_certs(domains.deep_view().take(i as int), present@),
        decreases domains.len() - i,
    {
        proof {
            let next = domains.deep_view().take(i + 1);
            assert(next.drop_last() == domains.deep_view().take(i as int));
            assert(next.last() == domains@[i as int]@);
        }
        if i < present.len() && present[i] {
            let ghost before = certs.deep_view();
            let (cert_path, key_path) = certificate_files(domains[i].as_str());
            let cert = DomainCert { domain: domains[i].clone(), cert_path, key_path };
            certs.push(cert);
            proof {
                assert(certs.deep_view() == before.push(cert_of(domains@[i as int]@)));
            }
        }
        i += 1;
    }
    proof {
        assert(domains.deep_view().take(i as int) == domains.deep_view());
    }
    certs
}

} // verus!
