use domain_proxy::calendar::{leap_year, month_from_name, month_length, seconds_since_epoch};
use domain_proxy::cert::issuer::CertificateIssuer;

#[test]
fn epoch_is_zero() {
    assert_eq!(seconds_since_epoch(1970, 1, 1, 0, 0, 0), Some(0));
    assert_eq!(seconds_since_epoch(1970, 1, 1, 0, 0, 1), Some(1));
    assert_eq!(seconds_since_epoch(1970, 1, 2, 0, 0, 0), Some(86400));
}

#[test]
fn known_moments() {
    assert_eq!(seconds_since_epoch(2024, 5, 15, 23, 59, 59), Some(1715817599));
    assert_eq!(seconds_since_epoch(2000, 2, 29, 12, 0, 0), Some(951825600));
    assert_eq!(seconds_since_epoch(2099, 12, 31, 23, 59, 59), Some(4102444799));
    assert_eq!(seconds_since_epoch(9999, 12, 31, 23, 59, 59), Some(253402300799));
    assert_eq!(seconds_since_epoch(2100, 3, 1, 0, 0, 0), Some(4107542400));
    assert_eq!(seconds_since_epoch(1972, 12, 31, 0, 0, 1), Some(94608001));
}

#[test]
fn dates_off_the_calendar_are_refused() {
    assert_eq!(seconds_since_epoch(1969, 12, 31, 23, 59, 59), None);
    assert_eq!(seconds_since_epoch(10000, 1, 1, 0, 0, 0), None);
    assert_eq!(seconds_since_epoch(2024, 0, 1, 0, 0, 0), None);
    assert_eq!(seconds_since_epoch(2024, 13, 1, 0, 0, 0), None);
    assert_eq!(seconds_since_epoch(2024, 1, 0, 0, 0, 0), None);
    assert_eq!(seconds_since_epoch(2023, 2, 29, 0, 0, 0), None);
    assert_eq!(seconds_since_epoch(2100, 2, 29, 0, 0, 0), None);
    assert_eq!(seconds_since_epoch(2024, 4, 31, 0, 0, 0), None);
    assert_eq!(seconds_since_epoch(2024, 1, 1, 24, 0, 0), None);
    assert_eq!(seconds_since_epoch(2024, 1, 1, 0, 60, 0), None);
    assert_eq!(seconds_since_epoch(2024, 1, 1, 0, 0, 60), None);
    assert!(seconds_since_epoch(2024, 2, 29, 0, 0, 0).is_some());
}

#[test]
fn leap_years_and_month_lengths() {
    assert!(leap_year(2000) && leap_year(2024) && !leap_year(1900) && !leap_year(2023));
    assert_eq!(month_length(2024, 2), 29);
    assert_eq!(month_length(2023, 2), 28);
    assert_eq!(month_length(2023, 4), 30);
    assert_eq!(month_length(2023, 12), 31);
    assert_eq!(month_length(2023, 0), 0);
    assert_eq!(month_length(2023, 13), 0);
}

#[test]
fn month_names() {
    let names = ["Jan", "Feb", "Mar", "Apr", "May", "Jun", "Jul", "Aug", "Sep", "Oct", "Nov", "Dec"];
    for (i, name) in names.iter().enumerate() {
        assert_eq!(month_from_name(name), Some(i as u8 + 1));
    }
    assert_eq!(month_from_name("jan"), None);
    assert_eq!(month_from_name("January"), None);
    assert_eq!(month_from_name(""), None);
}

#[test]
fn cert_expiry_is_read_from_the_end_date() {
    assert_eq!(
        CertificateIssuer::get_cert_expiry(true, "notAfter=May 15 23:59:59 2024 GMT\n"),
        Some(1715817599)
    );
    assert_eq!(
        CertificateIssuer::get_cert_expiry(true, "notAfter=Jan  1 00:00:00 2030 GMT"),
        Some(1893456000)
    );
    assert_eq!(CertificateIssuer::get_cert_expiry(false, "notAfter=May 15 23:59:59 2024 GMT"), None);
    assert_eq!(CertificateIssuer::get_cert_expiry(true, "May 15 23:59:59 2024 GMT"), None);
    assert_eq!(CertificateIssuer::get_cert_expiry(true, " notAfter=May 15 23:59:59 2024 GMT"), None);
    assert_eq!(CertificateIssuer::get_cert_expiry(true, "notAfter=May 15 23:59:59 2024 UTC"), None);
    assert_eq!(CertificateIssuer::get_cert_expiry(true, "notAfter=May 15 23:59 2024 GMT"), None);
    assert_eq!(CertificateIssuer::get_cert_expiry(true, "notAfter=Mai 15 23:59:59 2024 GMT"), None);
    assert_eq!(CertificateIssuer::get_cert_expiry(true, "notAfter=Feb 30 23:59:59 2024 GMT"), None);
    assert_eq!(CertificateIssuer::get_cert_expiry(true, "notAfter=May 15 23:59:59 2024"), None);
    assert_eq!(CertificateIssuer::get_cert_expiry(true, "notAfter=May 15 23:59:59 2024 GMT x"), None);
    assert_eq!(CertificateIssuer::get_cert_expiry(true, "notAfter=May 300 23:59:59 2024 GMT"), None);
    assert_eq!(CertificateIssuer::get_cert_expiry(true, "notAfter="), None);
    assert_eq!(CertificateIssuer::get_cert_expiry(true, ""), None);
}
