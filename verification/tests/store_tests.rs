use hmdl::DomainName;
use hmdl::HmdlSetup;
use hmdl::IpAddress;
use hmdl::KnownDomains;
use hmdl::PolicyStore;
use hmdl::SettingsStore;
use hmdl::SetupError;

fn name(text: &[u8]) -> DomainName {
    DomainName::parse(text).unwrap()
}

const CLIENT_A: IpAddress = IpAddress::V4(0x0a000101);
const CLIENT_B: IpAddress = IpAddress::V4(0x0a000102);

#[test]
fn log_domain_inserts_a_wholly_unknown_name() {
    let mut known = KnownDomains::new();
    let d = name(b"a.example.com.");
    let logged = known.log_domain(&d, 7, CLIENT_A);
    assert!(logged.same_name(&d));
    assert_eq!(known.lookup(&d), Some((7, CLIENT_A)));
}

#[test]
fn logging_a_child_updates_its_known_ancestor() {
    let mut known = KnownDomains::new();
    let parent = name(b"example.com.");
    known.log_domain(&parent, 1, CLIENT_A);

    let child = name(b"tt.client.example.com.");
    let logged = known.log_domain(&child, 9, CLIENT_B);

    assert!(logged.same_name(&parent));
    assert_eq!(known.lookup(&parent), Some((9, CLIENT_B)));
    assert!(!known.contains_name(&child));
}

#[test]
fn the_most_specific_known_ancestor_wins() {
    let mut known = KnownDomains::new();
    // deepest first: a name already absorbed by a known ancestor would
    // never be inserted itself
    known.log_domain(&name(b"example.com."), 1, CLIENT_A);
    known.log_domain(&name(b"com."), 2, CLIENT_A);

    let found = known.domain_or_parent_exists(&name(b"www.example.com.")).unwrap();
    assert_eq!(found.to_text(), b"example.com.".to_vec());
}

#[test]
fn the_root_never_matches_as_an_ancestor() {
    let mut known = KnownDomains::new();
    known.log_domain(&DomainName::root(), 1, CLIENT_A);
    assert!(known.domain_or_parent_exists(&name(b"a.")).is_none());

    let logged = known.log_domain(&name(b"a."), 2, CLIENT_B);
    assert_eq!(logged.to_text(), b"a.".to_vec());
    assert!(known.contains_name(&name(b"a.")));
}

#[test]
fn acme_persistence_upserts_and_reads_back() {
    let mut store = PolicyStore::new();
    store.acme_persist.put_key_value("acct_key".to_string(), vec![1, 2, 3]);
    assert_eq!(
        store.acme_persist.get_key_value(&"acct_key".to_string()),
        Some(vec![1, 2, 3])
    );
    store.acme_persist.put_key_value("acct_key".to_string(), vec![9]);
    assert_eq!(store.acme_persist.get_key_value(&"acct_key".to_string()), Some(vec![9]));
    assert_eq!(store.acme_persist.get_key_value(&"other".to_string()), None);
}

fn settings_fixture() -> HmdlSetup {
    HmdlSetup {
        application_domain: "home.example.org".to_string(),
        cloudflare_api_token: "cf-token".to_string(),
        acme_email: "admin@example.org".to_string(),
    }
}

#[test]
fn add_setup_is_locked_out_once_configured() {
    let mut settings = SettingsStore::new();
    assert!(settings.add_setup(settings_fixture()).is_ok());
    let second = HmdlSetup {
        application_domain: "other.example.org".to_string(),
        cloudflare_api_token: "cf-token".to_string(),
        acme_email: "other@example.org".to_string(),
    };
    assert_eq!(settings.add_setup(second), Err(SetupError::AlreadyConfigured));
    let row = settings.current().as_ref().unwrap();
    assert_eq!(row.application_domain, "home.example.org");
    assert!(!row.https_started_once);
}

#[test]
fn update_setup_keeps_the_https_flag() {
    let mut settings = SettingsStore::new();
    settings.add_setup(settings_fixture()).unwrap();
    settings.mark_https_started();
    let renamed = HmdlSetup {
        application_domain: "new.example.org".to_string(),
        cloudflare_api_token: "cf-token".to_string(),
        acme_email: "admin@example.org".to_string(),
    };
    settings.update_setup(renamed);
    let row = settings.current().as_ref().unwrap();
    assert_eq!(row.application_domain, "new.example.org");
    assert!(row.https_started_once);
}

#[test]
fn mark_https_started_without_settings_does_nothing() {
    let mut settings = SettingsStore::new();
    settings.mark_https_started();
    assert!(settings.current().is_none());
}
