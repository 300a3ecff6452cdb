use hmdl::DomainName;

#[test]
fn parse_round_trips_through_text() {
    let d = DomainName::parse(b"home.example.org.").unwrap();
    assert_eq!(d.label_count(), 3);
    assert_eq!(d.to_text(), b"home.example.org.".to_vec());
}

#[test]
fn parse_accepts_the_root() {
    let d = DomainName::parse(b".").unwrap();
    assert!(d.is_root());
    assert_eq!(d.to_text(), b".".to_vec());
}

#[test]
fn parse_rejects_bad_texts() {
    assert!(DomainName::parse(b"").is_none());
    assert!(DomainName::parse(b"a.b").is_none());
    assert!(DomainName::parse(b"a..b.").is_none());
    assert!(DomainName::parse(b".a.").is_none());
    assert!(DomainName::parse(b"..").is_none());
}

#[test]
fn parent_strips_the_most_specific_label() {
    let d = DomainName::parse(b"tt.client.example.com.").unwrap();
    let p = d.parent();
    assert_eq!(p.to_text(), b"client.example.com.".to_vec());
    let pp = p.parent().parent();
    assert_eq!(pp.to_text(), b"com.".to_vec());
    assert!(pp.parent().is_root());
}

#[test]
fn same_name_compares_labels() {
    let a = DomainName::parse(b"a.b.").unwrap();
    let b = DomainName::parse(b"a.b.").unwrap();
    let c = DomainName::parse(b"a.c.").unwrap();
    assert!(a.same_name(&b));
    assert!(!a.same_name(&c));
    assert!(a.same_name(&a.duplicate()));
}
