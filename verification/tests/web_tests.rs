use hmdl::ArpError;
use hmdl::IpAddress;
use hmdl::MakeHttpsError;
use hmdl::SettingsRecord;
use hmdl::is_setup;
use hmdl::lookup_mac_in_output;
use hmdl::loopback_identity;
use hmdl::make_https;
use hmdl::resolve_client_name;

#[test]
fn test_make_https() {
    let new_uri = make_https(b"https.pvt", b"http://localhost/api/is-setup").unwrap();
    assert_eq!(new_uri, b"https://https.pvt/api/is-setup".to_vec());
}

#[test]
fn make_https_supplies_the_root_path() {
    let new_uri = make_https(b"home.example.org", b"http://1.2.3.4").unwrap();
    assert_eq!(new_uri, b"https://home.example.org/".to_vec());
}

#[test]
fn make_https_keeps_an_origin_form_path() {
    let new_uri = make_https(b"home.example.org", b"/api/health").unwrap();
    assert_eq!(new_uri, b"https://home.example.org/api/health".to_vec());
}

#[test]
fn make_https_rejects_a_rootless_path() {
    assert_eq!(
        make_https(b"home.example.org", b"bare-text"),
        Err(MakeHttpsError::PathWithoutSlash)
    );
}

#[test]
fn is_setup_reports_each_state() {
    let resp = is_setup(&None);
    assert_eq!(resp.status, "Not Setup");
    assert!(resp.domain.is_none());

    let row = SettingsRecord {
        application_domain: "home.example.org".to_string(),
        cloudflare_api_token: "cf-token".to_string(),
        acme_email: "admin@example.org".to_string(),
        https_started_once: false,
    };
    let resp = is_setup(&Some(row));
    assert_eq!(resp.status, "In Progress");
    assert_eq!(resp.domain, Some("home.example.org".to_string()));

    let row = SettingsRecord {
        application_domain: "home.example.org".to_string(),
        cloudflare_api_token: "cf-token".to_string(),
        acme_email: "admin@example.org".to_string(),
        https_started_once: true,
    };
    let resp = is_setup(&Some(row));
    assert_eq!(resp.status, "Setup");
    assert_eq!(resp.domain, Some("home.example.org".to_string()));
}

#[test]
fn the_neighbor_table_answers_for_a_listed_address() {
    let output = b"router.lan (10.0.1.1) at 0:11:32:77:85:7a on en0 ifscope [ethernet]\n\
? (10.0.1.7) at a4:83:e7:11:22:33 on en0 ifscope [ethernet]\n";
    let (host, mac) = lookup_mac_in_output(output, b"10.0.1.7").unwrap();
    assert_eq!(host, b"?".to_vec());
    assert_eq!(mac, b"a4:83:e7:11:22:33".to_vec());
}

#[test]
fn the_first_matching_line_answers() {
    let output = b"a (10.0.1.1) at 0:11:32:77:85:7a on en0 x\n\
b (10.0.1.1) at ff:ff:ff:ff:ff:ff on en1 x\n";
    let (host, mac) = lookup_mac_in_output(output, b"10.0.1.1").unwrap();
    assert_eq!(host, b"a".to_vec());
    assert_eq!(mac, b"0:11:32:77:85:7a".to_vec());
}

#[test]
fn an_unlisted_address_is_not_found() {
    let output = b"router.lan (10.0.1.1) at 0:11:32:77:85:7a on en0 ifscope [ethernet]\n";
    match lookup_mac_in_output(output, b"10.0.9.9") {
        Err(ArpError::NotFound(pattern)) => assert_eq!(pattern, b"(10.0.9.9)".to_vec()),
        Ok(_) => panic!("an unlisted address must not be found"),
    }
}

#[test]
fn a_short_line_is_not_an_answer() {
    // fewer than five columns never matches, even with the right address
    let output = b"x (10.0.1.1) at 0:11:32:77:85:7a\n";
    assert!(lookup_mac_in_output(output, b"10.0.1.1").is_err());
}

#[test]
fn the_loopback_address_short_circuits_the_lookup() {
    let (host, mac) = loopback_identity(&IpAddress::V4(0x7f000001)).unwrap();
    assert_eq!(host, "localhost");
    assert_eq!(mac, "00:00:00:00:00:00");
    assert!(loopback_identity(&IpAddress::V4(0x0a000101)).is_none());
}

#[test]
fn a_nameless_client_is_recorded_under_its_hardware_address() {
    let mac = "0:11:32:77:85:7a".to_string();
    assert_eq!(resolve_client_name("?".to_string(), &mac), "0:11:32:77:85:7a");
    assert_eq!(resolve_client_name("router.lan".to_string(), &mac), "router.lan");
}
