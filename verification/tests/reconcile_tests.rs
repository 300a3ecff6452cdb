use hmdl::CloudflareAService;
use hmdl::DnsRecordEntry;
use hmdl::IpAddress;
use hmdl::IpSet;

const ADDR_A: IpAddress = IpAddress::V4(0xc0a80101);
const ADDR_B: IpAddress = IpAddress::V4(0xc0a80102);
const ADDR_C: IpAddress = IpAddress::V6(0x20010db8_0000_0000_0000_0000_0000_0001);

fn set_of(addrs: &[IpAddress]) -> IpSet {
    let mut s = IpSet::new();
    for a in addrs {
        s.insert(*a);
    }
    s
}

fn rec(id: &str, addr: IpAddress) -> DnsRecordEntry {
    DnsRecordEntry { id: id.to_string(), addr }
}

#[test]
fn equal_sets_plan_no_calls_at_all() {
    let desired = set_of(&[ADDR_A, ADDR_C]);
    let actual = vec![rec("r1", ADDR_C), rec("r2", ADDR_A)];
    let plan = CloudflareAService::update_dns_plan(&desired, &actual);
    assert!(plan.creates.is_empty());
    assert!(plan.deletes.is_empty());
}

#[test]
fn a_locally_new_address_is_created_once() {
    let desired = set_of(&[ADDR_A, ADDR_B]);
    let actual = vec![rec("r1", ADDR_A)];
    let plan = CloudflareAService::update_dns_plan(&desired, &actual);
    assert_eq!(plan.creates, vec![ADDR_B]);
    assert!(plan.deletes.is_empty());
}

#[test]
fn a_remotely_stale_record_is_deleted_once() {
    let desired = set_of(&[ADDR_A]);
    let actual = vec![rec("r1", ADDR_A), rec("r2", ADDR_C)];
    let plan = CloudflareAService::update_dns_plan(&desired, &actual);
    assert!(plan.creates.is_empty());
    assert_eq!(plan.deletes, vec!["r2".to_string()]);
}

#[test]
fn three_records_against_one_address() {
    // two stale records, one to keep, one address to create
    let desired = set_of(&[ADDR_A, ADDR_B]);
    let actual = vec![rec("r1", ADDR_C), rec("r2", ADDR_A), rec("r3", ADDR_C)];
    let plan = CloudflareAService::update_dns_plan(&desired, &actual);
    assert_eq!(plan.creates, vec![ADDR_B]);
    // one delete per stale record, even for a repeated address
    assert_eq!(plan.deletes, vec!["r1".to_string(), "r3".to_string()]);
}

#[test]
fn an_empty_desired_set_deletes_everything() {
    let desired = IpSet::new();
    let actual = vec![rec("r1", ADDR_A), rec("r2", ADDR_B)];
    let plan = CloudflareAService::update_dns_plan(&desired, &actual);
    assert!(plan.creates.is_empty());
    assert_eq!(plan.deletes, vec!["r1".to_string(), "r2".to_string()]);
}
