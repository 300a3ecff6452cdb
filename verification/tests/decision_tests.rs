use hmdl::Decision;
use hmdl::DomainName;
use hmdl::IpAddress;
use hmdl::PolicyStore;
use hmdl::decision_response_code;

fn name(text: &[u8]) -> DomainName {
    DomainName::parse(text).unwrap()
}

const LOCALHOST: IpAddress = IpAddress::V4(0x7f000001);
const OTHER_CLIENT: IpAddress = IpAddress::V4(0x0a000105);

/// The policy of the worked example: example.com. sits in the domain
/// group `domain_test`, which is applied to the client group `kids`,
/// whose one member is localhost.
fn kids_policy() -> PolicyStore {
    let mut store = PolicyStore::new();
    store.clients.log_client(
        "localhost".to_string(),
        LOCALHOST,
        "00:00:00:00:00:00".to_string(),
    );
    store.add_domain_group_member(name(b"example.com."), "domain_test".to_string(), false);
    store.add_client_group_member("localhost".to_string(), "kids".to_string());
    store.add_groups_applied("kids".to_string(), "domain_test".to_string());
    store
}

#[test]
fn a_grouped_domain_is_blocked_for_a_grouped_client() {
    let store = kids_policy();
    assert_eq!(store.decide(LOCALHOST, &name(b"example.com.")), Decision::Block);
}

#[test]
fn an_ungrouped_domain_is_allowed() {
    let store = kids_policy();
    assert_eq!(store.decide(LOCALHOST, &name(b"other.org.")), Decision::Allow);
}

#[test]
fn a_client_outside_the_group_is_allowed() {
    let store = kids_policy();
    assert_eq!(store.decide(OTHER_CLIENT, &name(b"example.com.")), Decision::Allow);
}

#[test]
fn an_unapplied_group_does_not_block() {
    let mut store = PolicyStore::new();
    store.clients.log_client(
        "localhost".to_string(),
        LOCALHOST,
        "00:00:00:00:00:00".to_string(),
    );
    store.add_domain_group_member(name(b"example.com."), "domain_test".to_string(), false);
    store.add_client_group_member("localhost".to_string(), "kids".to_string());
    // no groups_applied row: the rule is not applied to anyone
    assert_eq!(store.decide(LOCALHOST, &name(b"example.com.")), Decision::Allow);
}

#[test]
fn decision_is_repeatable_and_leaves_the_store_alone() {
    let store = kids_policy();
    let first = store.decide(LOCALHOST, &name(b"example.com."));
    let second = store.decide(LOCALHOST, &name(b"example.com."));
    assert_eq!(first, second);
}

#[test]
fn should_filter_fails_open_without_a_client_identity() {
    let mut store = kids_policy();
    let d = name(b"example.com.");
    let decision = store.should_filter(LOCALHOST, None, &d, 5);
    assert_eq!(decision, Decision::Allow);
}

#[test]
fn should_filter_blocks_through_the_known_ancestor() {
    let mut store = kids_policy();
    // make the grouped parent known, then query an unknown child of it
    store.known_domains.log_domain(&name(b"example.com."), 1, LOCALHOST);
    let child = name(b"ads.example.com.");
    let identity = Some(("localhost".to_string(), "00:00:00:00:00:00".to_string()));
    let decision = store.should_filter(LOCALHOST, identity, &child, 6);
    assert_eq!(decision, Decision::Block);
    // the observation was absorbed by the parent, not inserted
    assert!(!store.known_domains.contains_name(&child));
    assert_eq!(
        store.known_domains.lookup(&name(b"example.com.")),
        Some((6, LOCALHOST))
    );
}

#[test]
fn should_filter_records_the_client_under_its_hardware_address_fallback() {
    let mut store = PolicyStore::new();
    let d = name(b"a.example.net.");
    let identity = Some(("?".to_string(), "0:11:32:77:85:7a".to_string()));
    store.should_filter(OTHER_CLIENT, identity, &d, 3);
    let rec = store.clients.lookup(&"0:11:32:77:85:7a".to_string()).unwrap();
    assert_eq!(rec.0, OTHER_CLIENT);
    assert_eq!(rec.1, "0:11:32:77:85:7a");
}

#[test]
fn an_empty_store_allows_everything() {
    let store = PolicyStore::new();
    assert_eq!(store.decide(LOCALHOST, &name(b"example.com.")), Decision::Allow);
    assert_eq!(store.decide(LOCALHOST, &DomainName::root()), Decision::Allow);
}

#[test]
fn block_answers_with_the_policy_rejection_code() {
    assert_eq!(decision_response_code(&Decision::Block), Some(3841));
    assert_eq!(decision_response_code(&Decision::Allow), None);
}
