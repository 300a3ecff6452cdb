use vstd::prelude::*;

verus! {

/// The configuration the installer provides: the appliance's public
/// domain, the DNS provider's API token, and the ACME contact address.
#[derive(Clone, Debug)]
pub struct HmdlSetup {
    pub application_domain: String,
    pub cloudflare_api_token: String,
    pub acme_email: String,
}

pub ghost struct HmdlSetupV {
    pub application_domain: Seq<char>,
    pub cloudflare_api_token: Seq<char>,
    pub acme_email: Seq<char>,
}

impl View for HmdlSetup {
    type V = HmdlSetupV;

    open spec fn view(&self) -> HmdlSetupV {
        HmdlSetupV {
            application_domain: self.application_domain@,
            cloudflare_api_token: self.cloudflare_api_token@,
            acme_email: self.acme_email@,
        }
    }
}

impl PartialEq for HmdlSetup {
    fn eq(&self, other: &HmdlSetup) -> (r: bool) {
        self.application_domain == other.application_domain && self.cloudflare_api_token
            == other.cloudflare_api_token && self.acme_email == other.acme_email
    }
}

impl Eq for HmdlSetup {

}

impl vstd::std_specs::cmp::PartialEqSpecImpl for HmdlSetup {
    open spec fn obeys_eq_spec() -> bool {
        true
    }

    open spec fn eq_spec(&self, other: &HmdlSetup) -> bool {
        self@ == other@
    }
}

impl HmdlSetup {
    /// A fresh copy of the same settings.
    pub fn duplicate(&self) -> (r: HmdlSetup)
        ensures
            r@ == self@,
    {
        HmdlSetup {
            application_domain: self.application_domain.clone(),
            cloudflare_api_token: self.cloudflare_api_token.clone(),
            acme_email: self.acme_email.clone(),
        }
    }
}

/// The settings row the store holds, at most once: what the installer
/// provided, plus whether HTTPS has ever successfully started.
pub struct SettingsRecord {
    pub application_domain: String,
    pub cloudflare_api_token: String,
    pub acme_email: String,
    pub https_started_once: bool,
}

pub ghost struct SettingsRecordV {
    pub application_domain: Seq<char>,
    pub cloudflare_api_token: Seq<char>,
    pub acme_email: Seq<char>,
    pub https_started_once: bool,
}

impl View for SettingsRecord {
    type V = SettingsRecordV;

    open spec fn view(&self) -> SettingsRecordV {
        SettingsRecordV {
            application_domain: self.application_domain@,
            cloudflare_api_token: self.cloudflare_api_token@,
            acme_email: self.acme_email@,
            https_started_once: self.https_started_once,
        }
    }
}

/// The settings a record carries, without the HTTPS flag.
pub open spec fn spec_setup_of(r: SettingsRecordV) -> HmdlSetupV {
    HmdlSetupV {
        application_domain: r.application_domain,
        cloudflare_api_token: r.cloudflare_api_token,
        acme_email: r.acme_email,
    }
}

impl SettingsRecord {
    pub fn to_setup(&self) -> (r: HmdlSetup)
        ensures
            r@ == spec_setup_of(self@),
    {
        HmdlSetup {
            application_domain: self.application_domain.clone(),
            cloudflare_api_token: self.cloudflare_api_token.clone(),
            acme_email: self.acme_email.clone(),
        }
    }
}

/// The derived installation state: no settings at all, settings present
/// but HTTPS never yet started, or fully set up.
#[derive(Clone, Debug)]
pub enum SetupStatus {
    NotSetup,
    InProgress(HmdlSetup),
    Setup(HmdlSetup),
}

pub ghost enum SetupStatusV {
    NotSetup,
    InProgress(HmdlSetupV),
    Setup(HmdlSetupV),
}

impl View for SetupStatus {
    type V = SetupStatusV;

    open spec fn view(&self) -> SetupStatusV {
        match self {
            SetupStatus::NotSetup => SetupStatusV::NotSetup,
            SetupStatus::InProgress(s) => SetupStatusV::InProgress(s@),
            SetupStatus::Setup(s) => SetupStatusV::Setup(s@),
        }
    }
}

impl PartialEq for SetupStatus {
    fn eq(&self, other: &SetupStatus) -> (r: bool) {
        match (self, other) {
            (SetupStatus::NotSetup, SetupStatus::NotSetup) => true,
            (SetupStatus::InProgress(a), SetupStatus::InProgress(b)) => a == b,
            (SetupStatus::Setup(a), SetupStatus::Setup(b)) => a == b,
            _ => false,
        }
    }
}

impl Eq for SetupStatus {

}

impl vstd::std_specs::cmp::PartialEqSpecImpl for SetupStatus {
    open spec fn obeys_eq_spec() -> bool {
        true
    }

    open spec fn eq_spec(&self, other: &SetupStatus) -> bool {
        self@ == other@
    }
}

/// How a settings row reads as a status.
pub open spec fn spec_classify(rec: Option<SettingsRecordV>) -> SetupStatusV {
    match rec {
        None => SetupStatusV::NotSetup,
        Some(r) => if r.https_started_once {
            SetupStatusV::Setup(spec_setup_of(r))
        } else {
            SetupStatusV::InProgress(spec_setup_of(r))
        },
    }
}

pub open spec fn spec_opt_record_view(rec: Option<SettingsRecord>) -> Option<SettingsRecordV> {
    match rec {
        None => None,
        Some(r) => Some(r@),
    }
}

/// Derives the tri-state setup status from the settings row, exactly as
/// the store would answer a refresh request.
pub struct InstallationStatusService {
}

impl InstallationStatusService {
    pub fn create() -> (r: InstallationStatusService) {
        InstallationStatusService {  }
    }

    /// Classifies a settings row into the status it denotes.
    pub fn setup_status_check(&self, rec: &Option<SettingsRecord>) -> (r: SetupStatus)
        ensures
            r@ == spec_classify(spec_opt_record_view(*rec)),
    {
        match rec {
            None => SetupStatus::NotSetup,
            Some(record) => {
                let setup = record.to_setup();
                if record.https_started_once {
                    SetupStatus::Setup(setup)
                } else {
                    SetupStatus::InProgress(setup)
                }
            },
        }
    }
}

/// The settings a status carries, if it carries any: either of the two
/// configured states counts as "settings are available".
pub open spec fn spec_status_settings(st: SetupStatusV) -> Option<HmdlSetupV> {
    match st {
        SetupStatusV::NotSetup => None,
        SetupStatusV::InProgress(s) => Some(s),
        SetupStatusV::Setup(s) => Some(s),
    }
}

/// Reads the settings out of a status.
pub fn settings_of(status: &SetupStatus) -> (r: Option<&HmdlSetup>)
    ensures
        match r {
            Some(s) => spec_status_settings(status@) == Some(s@),
            None => spec_status_settings(status@) is None,
        },
{
    match status {
        SetupStatus::NotSetup => None,
        SetupStatus::InProgress(s) => Some(s),
        SetupStatus::Setup(s) => Some(s),
    }
}

/// Rejected configuration attempts.
#[derive(Clone, Copy, PartialEq, Eq, Structural, Debug)]
pub enum SetupError {
    /// Settings already exist; the pre-configuration endpoint is locked out.
    AlreadyConfigured,
}

/// The singleton settings row and the operations the system performs on
/// it. Settings are created once, updated in place, and never deleted.
pub struct SettingsStore {
    row: Option<SettingsRecord>,
}

impl View for SettingsStore {
    type V = Option<SettingsRecordV>;

    closed spec fn view(&self) -> Option<SettingsRecordV> {
        spec_opt_record_view(self.row)
    }
}

/// The settings row only ever evolves forward: it never disappears once
/// present, and the HTTPS flag never goes back to false.
pub open spec fn spec_settings_evolves(
    a: Option<SettingsRecordV>,
    b: Option<SettingsRecordV>,
) -> bool {
    &&& (a is Some ==> b is Some)
    &&& (a is Some && a.unwrap().https_started_once ==> b is Some
        && b.unwrap().https_started_once)
}

impl SettingsStore {
    pub fn new() -> (r: SettingsStore)
        ensures
            r@ is None,
    {
        SettingsStore { row: None }
    }

    /// A borrow of the row, for classification.
    pub fn current(&self) -> (r: &Option<SettingsRecord>)
        ensures
            spec_opt_record_view(*r) == self@,
    {
        &self.row
    }

    /// The pre-configuration setup call: creates the settings row with the
    /// HTTPS flag down, and is rejected once settings already exist.
    pub fn add_setup(&mut self, setup: HmdlSetup) -> (r: Result<(), SetupError>)
        ensures
            match r {
                Ok(()) => old(self)@ is None && final(self)@ == Some(
                    SettingsRecordV {
                        application_domain: setup@.application_domain,
                        cloudflare_api_token: setup@.cloudflare_api_token,
                        acme_email: setup@.acme_email,
                        https_started_once: false,
                    },
                ),
                Err(SetupError::AlreadyConfigured) => old(self)@ is Some && final(self)@ == old(
                    self,
                )@,
            },
            spec_settings_evolves(old(self)@, final(self)@),
    {
        match &self.row {
            Some(_) => Err(SetupError::AlreadyConfigured),
            None => {
                self.row = Some(
                    SettingsRecord {
                        application_domain: setup.application_domain,
                        cloudflare_api_token: setup.cloudflare_api_token,
                        acme_email: setup.acme_email,
                        https_started_once: false,
                    },
                );
                Ok(())
            },
        }
    }

    /// The administrative update: replaces the three configured fields and
    /// keeps the HTTPS flag; creates the row with the flag down when none
    /// exists yet.
    pub fn update_setup(&mut self, setup: HmdlSetup)
        ensures
            final(self)@ == Some(
                SettingsRecordV {
                    application_domain: setup@.application_domain,
                    cloudflare_api_token: setup@.cloudflare_api_token,
                    acme_email: setup@.acme_email,
                    https_started_once: match old(self)@ {
                        Some(r) => r.https_started_once,
                        None => false,
                    },
                },
            ),
            spec_settings_evolves(old(self)@, final(self)@),
    {
        let started = match &self.row {
            Some(r) => r.https_started_once,
            None => false,
        };
        self.row = Some(
            SettingsRecord {
                application_domain: setup.application_domain,
                cloudflare_api_token: setup.cloudflare_api_token,
                acme_email: setup.acme_email,
                https_started_once: started,
            },
        );
    }

    /// Records that the HTTPS server has come up at least once; without a
    /// settings row there is nothing to record.
    pub fn mark_https_started(&mut self)
        ensures
            final(self)@ == match old(self)@ {
                Some(r) => Some(SettingsRecordV { https_started_once: true, ..r }),
                None => None,
            },
            spec_settings_evolves(old(self)@, final(self)@),
    {
        match &mut self.row {
            Some(r) => {
                r.https_started_once = true;
            },
            None => {},
        }
    }
}

/// Where a status stands on the one-way path from not set up to set up.
pub open spec fn spec_status_rank(s: SetupStatusV) -> int {
    match s {
        SetupStatusV::NotSetup => 0,
        SetupStatusV::InProgress(_) => 1,
        SetupStatusV::Setup(_) => 2,
    }
}

/// The setup status only moves forward: as long as the settings row
/// evolves as the store's operations evolve it, the classified status
/// never falls back toward `NotSetup`.
pub proof fn lemma_setup_status_monotonic(a: Option<SettingsRecordV>, b: Option<SettingsRecordV>)
    requires
        spec_settings_evolves(a, b),
    ensures
        spec_status_rank(spec_classify(a)) <= spec_status_rank(spec_classify(b)),
{
}

/// Before HTTPS has started, a settings row always classifies as
/// `InProgress` carrying exactly those settings: re-requesting the status
/// never regresses to `NotSetup` once settings exist.
pub proof fn lemma_status_before_https(r: SettingsRecordV)
    requires
        !r.https_started_once,
    ensures
        spec_classify(Some(r)) == SetupStatusV::InProgress(spec_setup_of(r)),
        spec_classify(Some(r)) != SetupStatusV::NotSetup,
{
}

} // verus!
