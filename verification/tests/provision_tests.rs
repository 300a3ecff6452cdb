use hmdl::AcmeProvisionService;
use hmdl::CertificateAction;
use hmdl::HmdlSetup;
use hmdl::ProvisionerAction;
use hmdl::ProvisionerEvent;
use hmdl::SetupStatus;
use hmdl::create_proof_domain;
use hmdl::evaluate_existing_certificate;
use hmdl::propagation_observed;

fn settings() -> HmdlSetup {
    HmdlSetup {
        application_domain: "home.example.org".to_string(),
        cloudflare_api_token: "cf-token".to_string(),
        acme_email: "admin@example.org".to_string(),
    }
}

#[test]
fn a_certificate_with_ample_validity_is_reused() {
    assert_eq!(evaluate_existing_certificate(Some(31)), CertificateAction::Reuse);
    assert_eq!(evaluate_existing_certificate(Some(90)), CertificateAction::Reuse);
}

#[test]
fn a_nearly_expired_or_missing_certificate_is_reordered() {
    assert_eq!(evaluate_existing_certificate(Some(30)), CertificateAction::Order);
    assert_eq!(evaluate_existing_certificate(Some(0)), CertificateAction::Order);
    assert_eq!(evaluate_existing_certificate(None), CertificateAction::Order);
}

#[test]
fn the_proof_record_name_wraps_the_domain() {
    let p = create_proof_domain("home.example.org");
    assert_eq!(p, "_acme-challenge.home.example.org.");
}

#[test]
fn propagation_is_observed_in_a_matching_answer_line() {
    let output = b"; <<>> DiG 9.10 <<>> _acme-challenge.home.example.org. TXT\n\
_acme-challenge.home.example.org. 1 IN TXT \"proof-value-123\"\n\
;; Query time: 23 msec\n";
    assert!(propagation_observed(
        output,
        b"_acme-challenge.home.example.org.",
        b"proof-value-123"
    ));
}

#[test]
fn propagation_is_not_observed_for_a_stale_value() {
    let output =
        b"_acme-challenge.home.example.org. 1 IN TXT \"old-proof\"\n";
    assert!(!propagation_observed(
        output,
        b"_acme-challenge.home.example.org.",
        b"proof-value-123"
    ));
}

#[test]
fn propagation_needs_a_quoted_value() {
    let output = b"_acme-challenge.home.example.org. has no quotes here\n";
    assert!(!propagation_observed(
        output,
        b"_acme-challenge.home.example.org.",
        b"proof-value-123"
    ));
    assert!(!propagation_observed(b"", b"_acme-challenge.home.example.org.", b"x"));
}

#[test]
fn propagation_reads_lines_with_carriage_returns() {
    let output = b"_acme-challenge.home.example.org. 1 IN TXT \"p\"\r\nrest\n";
    assert!(propagation_observed(output, b"_acme-challenge.home.example.org.", b"p"));
}

#[test]
fn the_provisioner_waits_until_settings_arrive() {
    let mut svc = AcmeProvisionService::create();
    let action = svc.on_event(ProvisionerEvent::StatusReceived(SetupStatus::NotSetup));
    assert!(matches!(action, ProvisionerAction::Wait));
    let action = svc.on_event(ProvisionerEvent::StatusReceived(SetupStatus::InProgress(
        settings(),
    )));
    match action {
        ProvisionerAction::StartAcquisition(s) => assert_eq!(s, settings()),
        _ => panic!("settings must start an acquisition"),
    }
}

#[test]
fn a_successful_acquisition_publishes_and_renews() {
    let mut svc = AcmeProvisionService::create();
    svc.on_event(ProvisionerEvent::StatusReceived(SetupStatus::Setup(settings())));
    let action = svc.on_event(ProvisionerEvent::AcquisitionSucceeded);
    match action {
        ProvisionerAction::PublishTlsConfig(s) => assert_eq!(s, settings()),
        _ => panic!("success must publish the configuration"),
    }
    let action = svc.on_event(ProvisionerEvent::RenewalDue);
    assert!(matches!(action, ProvisionerAction::StartRenewal(_)));
}

#[test]
fn an_initial_failure_is_fatal_but_a_renewal_failure_is_not() {
    let mut svc = AcmeProvisionService::create();
    svc.on_event(ProvisionerEvent::StatusReceived(SetupStatus::InProgress(settings())));
    let action = svc.on_event(ProvisionerEvent::AcquisitionFailed);
    assert!(matches!(action, ProvisionerAction::ReportFatal));

    let mut serving = AcmeProvisionService::create();
    serving.on_event(ProvisionerEvent::StatusReceived(SetupStatus::Setup(settings())));
    serving.on_event(ProvisionerEvent::AcquisitionSucceeded);
    serving.on_event(ProvisionerEvent::RenewalDue);
    let action = serving.on_event(ProvisionerEvent::AcquisitionFailed);
    assert!(matches!(action, ProvisionerAction::KeepServing));
}
