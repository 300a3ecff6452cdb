use hmdl::AcmeProvisionService;
use hmdl::CloudflareAService;
use hmdl::HmdlSetup;
use hmdl::InstallationStatusService;
use hmdl::IpAddress;
use hmdl::IpProvderService;
use hmdl::IpSet;
use hmdl::PolicyStore;
use hmdl::ProvisionerAction;
use hmdl::ProvisionerEvent;
use hmdl::SetupStatus;
use hmdl::Topic;
use hmdl::create_proof_domain;
use hmdl::is_setup;
use hmdl::propagation_observed;
use hmdl::settings_of;

#[test]
fn a_topic_retains_the_latest_value_for_late_subscribers() {
    let mut topic: Topic<u64> = Topic::new();
    assert!(topic.latest().is_none());
    topic.publish(1);
    topic.publish(2);
    // a subscriber arriving only now still sees the most recent value
    assert_eq!(*topic.latest(), Some(2));
}

#[test]
fn settings_of_reads_both_configured_states() {
    let s = HmdlSetup {
        application_domain: "home.example.org".to_string(),
        cloudflare_api_token: "cf-token".to_string(),
        acme_email: "admin@example.org".to_string(),
    };
    assert!(settings_of(&SetupStatus::NotSetup).is_none());
    assert_eq!(settings_of(&SetupStatus::InProgress(s.clone())), Some(&s));
    assert_eq!(settings_of(&SetupStatus::Setup(s.clone())), Some(&s));
}

/// The whole setup flow, one service decision at a time: settings arrive,
/// the tracker reports them as in progress, the reconciler plans the
/// record creation once addresses arrive, the provisioner runs its DNS-01
/// challenge and publishes a configuration, and after HTTPS starts the
/// status endpoint reports the system as set up.
#[test]
fn end_to_end_setup_flow() {
    let mut store = PolicyStore::new();
    let tracker = InstallationStatusService::create();
    let mut status_topic: Topic<SetupStatus> = Topic::new();

    // settings are inserted through the install endpoint
    store
        .settings
        .add_setup(HmdlSetup {
            application_domain: "home.example.org".to_string(),
            cloudflare_api_token: "cf-token".to_string(),
            acme_email: "admin@example.org".to_string(),
        })
        .unwrap();

    // the tracker classifies and publishes: in progress
    let status = tracker.setup_status_check(store.settings.current());
    assert!(matches!(status, SetupStatus::InProgress(_)));
    status_topic.publish(status.clone());

    // an address set arrives from the monitor
    let mut monitor = IpProvderService::create();
    let mut addrs = IpSet::new();
    addrs.insert(IpAddress::V4(0xc0a80101));
    let published = monitor.observe(addrs).expect("the first sample is published");

    // the reconciler sees settings and addresses and plans one creation
    let desired = published.without_loopback();
    let plan = CloudflareAService::update_dns_plan(&desired, &Vec::new());
    assert_eq!(plan.creates, vec![IpAddress::V4(0xc0a80101)]);
    assert!(plan.deletes.is_empty());

    // the provisioner starts acquiring as soon as it sees the settings
    let mut provisioner = AcmeProvisionService::create();
    let latest = status_topic.latest().clone().unwrap();
    let action = provisioner.on_event(ProvisionerEvent::StatusReceived(latest));
    let acquiring_for = match action {
        ProvisionerAction::StartAcquisition(s) => s,
        _ => panic!("settings must start an acquisition"),
    };
    assert_eq!(acquiring_for.application_domain, "home.example.org");

    // the DNS-01 proof is written and its propagation observed
    let proof_domain = create_proof_domain(&acquiring_for.application_domain);
    assert_eq!(proof_domain, "_acme-challenge.home.example.org.");
    let lookup_output =
        b"_acme-challenge.home.example.org. 60 IN TXT \"challenge-proof\"\n";
    assert!(propagation_observed(
        lookup_output,
        proof_domain.as_bytes(),
        b"challenge-proof"
    ));

    // validation succeeded: the configuration is published
    let mut tls_topic: Topic<HmdlSetup> = Topic::new();
    match provisioner.on_event(ProvisionerEvent::AcquisitionSucceeded) {
        ProvisionerAction::PublishTlsConfig(s) => tls_topic.publish(s),
        _ => panic!("success must publish the configuration"),
    }
    assert!(tls_topic.latest().is_some());

    // the secure server starts and records that HTTPS ran
    store.settings.mark_https_started();
    let status = tracker.setup_status_check(store.settings.current());
    assert!(matches!(status, SetupStatus::Setup(_)));
    let resp = is_setup(store.settings.current());
    assert_eq!(resp.status, "Setup");
    assert_eq!(resp.domain, Some("home.example.org".to_string()));
}
