use hmdl::HmdlSetup;
use hmdl::InstallationStatusService;
use hmdl::SettingsRecord;
use hmdl::SettingsStore;
use hmdl::SetupStatus;

fn setup() -> HmdlSetup {
    HmdlSetup {
        application_domain: "home.example.org".to_string(),
        cloudflare_api_token: "cf-token".to_string(),
        acme_email: "admin@example.org".to_string(),
    }
}

#[test]
fn no_settings_classify_as_not_setup() {
    let tracker = InstallationStatusService::create();
    assert_eq!(tracker.setup_status_check(&None), SetupStatus::NotSetup);
}

#[test]
fn settings_without_https_classify_as_in_progress() {
    let tracker = InstallationStatusService::create();
    let row = SettingsRecord {
        application_domain: "home.example.org".to_string(),
        cloudflare_api_token: "cf-token".to_string(),
        acme_email: "admin@example.org".to_string(),
        https_started_once: false,
    };
    assert_eq!(
        tracker.setup_status_check(&Some(row)),
        SetupStatus::InProgress(setup())
    );
}

#[test]
fn settings_with_https_classify_as_set_up() {
    let tracker = InstallationStatusService::create();
    let row = SettingsRecord {
        application_domain: "home.example.org".to_string(),
        cloudflare_api_token: "cf-token".to_string(),
        acme_email: "admin@example.org".to_string(),
        https_started_once: true,
    };
    assert_eq!(tracker.setup_status_check(&Some(row)), SetupStatus::Setup(setup()));
}

/// The status never moves backwards along the store's own operations:
/// NotSetup, then InProgress for every re-request until HTTPS starts,
/// then Setup.
#[test]
fn the_status_only_moves_forward() {
    let tracker = InstallationStatusService::create();
    let mut settings = SettingsStore::new();

    assert_eq!(tracker.setup_status_check(settings.current()), SetupStatus::NotSetup);

    settings.add_setup(setup()).unwrap();
    assert_eq!(
        tracker.setup_status_check(settings.current()),
        SetupStatus::InProgress(setup())
    );
    // a refresh before HTTPS starts answers InProgress again, never NotSetup
    assert_eq!(
        tracker.setup_status_check(settings.current()),
        SetupStatus::InProgress(setup())
    );

    settings.mark_https_started();
    assert_eq!(tracker.setup_status_check(settings.current()), SetupStatus::Setup(setup()));

    // a later configuration change does not lose the HTTPS mark
    settings.update_setup(setup());
    assert_eq!(tracker.setup_status_check(settings.current()), SetupStatus::Setup(setup()));
}
