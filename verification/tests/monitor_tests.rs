use hmdl::IpAddress;
use hmdl::IpProvderService;
use hmdl::IpProvderServiceError;
use hmdl::IpSet;
use hmdl::filter_servable;

const ADDR_A: IpAddress = IpAddress::V4(0xc0a80101);
const ADDR_B: IpAddress = IpAddress::V4(0xc0a80102);

fn set_of(addrs: &[IpAddress]) -> IpSet {
    let mut s = IpSet::new();
    for a in addrs {
        s.insert(*a);
    }
    s
}

#[test]
fn the_first_sample_is_published_even_when_empty() {
    let mut monitor = IpProvderService::create();
    let published = monitor.observe(IpSet::new());
    let p = published.expect("the first sample must always be published");
    assert!(p.is_empty());
}

#[test]
fn an_unchanged_set_is_not_published_again() {
    let mut monitor = IpProvderService::create();
    assert!(monitor.observe(set_of(&[ADDR_A, ADDR_B])).is_some());
    // same members, other order: equal as a set, so nothing is published
    assert!(monitor.observe(set_of(&[ADDR_B, ADDR_A])).is_none());
}

#[test]
fn a_changed_set_is_published() {
    let mut monitor = IpProvderService::create();
    assert!(monitor.observe(set_of(&[ADDR_A])).is_some());
    let p = monitor.observe(set_of(&[ADDR_A, ADDR_B])).unwrap();
    assert!(p.contains(&ADDR_A));
    assert!(p.contains(&ADDR_B));
    // and the new set is now the retained one
    assert!(monitor.observe(set_of(&[ADDR_B, ADDR_A])).is_none());
}

#[test]
fn filtering_drops_link_local_addresses() {
    let listing = vec![
        ("eth0".to_string(), IpAddress::V4(0xc0a80101)),
        ("eth0".to_string(), IpAddress::V4(0xa9fe0101)),
        ("eth0".to_string(), IpAddress::V6(0xfe80_0000_0000_0000_0000_0000_0000_0001)),
        ("lo".to_string(), IpAddress::V4(0x7f000001)),
    ];
    let s = filter_servable(&listing);
    assert!(s.contains(&IpAddress::V4(0xc0a80101)));
    assert!(!s.contains(&IpAddress::V4(0xa9fe0101)));
    assert!(!s.contains(&IpAddress::V6(0xfe80_0000_0000_0000_0000_0000_0000_0001)));
    // loopback is kept by the monitor; only the reconciler strips it
    assert!(s.contains(&IpAddress::V4(0x7f000001)));
}

#[test]
fn unicast_link_local_scope_is_the_fe80_slash_10_range() {
    assert!(IpProvderService::has_unicast_link_local_scope(
        0xfe80_0000_0000_0000_0000_0000_0000_0001
    ));
    assert!(IpProvderService::has_unicast_link_local_scope(
        0xfebf_ffff_ffff_ffff_ffff_ffff_ffff_ffff
    ));
    assert!(!IpProvderService::has_unicast_link_local_scope(
        0xfec0_0000_0000_0000_0000_0000_0000_0000
    ));
    assert!(!IpProvderService::has_unicast_link_local_scope(1));
}

#[test]
fn without_loopback_strips_exactly_the_loopback_addresses() {
    let s = set_of(&[ADDR_A, IpAddress::V4(0x7f000001), IpAddress::V6(1)]);
    let stripped = s.without_loopback();
    assert!(stripped.contains(&ADDR_A));
    assert!(!stripped.contains(&IpAddress::V4(0x7f000001)));
    assert!(!stripped.contains(&IpAddress::V6(1)));
}

#[test]
fn an_enumeration_failure_carries_its_account() {
    let e = IpProvderServiceError::LocalIpError("no interfaces".to_string());
    assert_eq!(e.describe(), "no interfaces");
}
