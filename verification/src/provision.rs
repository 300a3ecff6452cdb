use vstd::prelude::*;

use crate::status::HmdlSetup;
use crate::status::HmdlSetupV;
use crate::status::SetupStatus;
use crate::status::SetupStatusV;
use crate::status::spec_status_settings;
use crate::text::CARRIAGE_RETURN;
use crate::text::LINE_FEED;
use crate::text::QUOTE;
use crate::text::bytes_eq;
use crate::text::find_byte;
use crate::text::lemma_find_byte_props;
use crate::text::spec_find_byte;
use crate::text::starts_with;

verus! {

/// How many days of remaining validity make an existing certificate worth
/// keeping instead of ordering a new one.
pub const REUSE_THRESHOLD_DAYS: i64 = 30;

/// What the provisioner does about an existing certificate.
#[derive(Clone, Copy, PartialEq, Eq, Structural, Debug)]
pub enum CertificateAction {
    /// Keep the certificate already issued; no order is placed.
    Reuse,
    /// Place a new order and run its validations.
    Order,
}

/// The decision over the days of validity an existing certificate has
/// left, if one exists at all.
pub open spec fn spec_certificate_action(valid_days_left: Option<i64>) -> CertificateAction {
    match valid_days_left {
        Some(d) => if d > REUSE_THRESHOLD_DAYS {
            CertificateAction::Reuse
        } else {
            CertificateAction::Order
        },
        None => CertificateAction::Order,
    }
}

/// Decides whether an existing certificate is reused: exactly when one
/// exists with more than the threshold's days of validity left. Only an
/// `Order` outcome leads to any ACME order being placed.
pub fn evaluate_existing_certificate(valid_days_left: Option<i64>) -> (r: CertificateAction)
    ensures
        r == spec_certificate_action(valid_days_left),
{
    match valid_days_left {
        Some(d) => if d > REUSE_THRESHOLD_DAYS {
            CertificateAction::Reuse
        } else {
            CertificateAction::Order
        },
        None => CertificateAction::Order,
    }
}

/// A certificate with more than the threshold's days of validity left is
/// always reused: the provisioner places no new order for it.
pub proof fn lemma_certificate_reuse(d: i64)
    requires
        d > REUSE_THRESHOLD_DAYS,
    ensures
        spec_certificate_action(Some(d)) == CertificateAction::Reuse,
{
}

/// The name whose TXT record carries the DNS-01 proof for a domain.
pub fn create_proof_domain(domain: &str) -> (r: String)
    ensures
        r@ == "_acme-challenge."@ + domain@ + "."@,
{
    let mut r = String::from_str("_acme-challenge.");
    r.append(domain);
    r.append(".");
    r
}

/// A line of lookup output with any trailing carriage return removed.
pub open spec fn spec_trim_cr(line: Seq<u8>) -> Seq<u8> {
    if line.len() > 0 && line[line.len() - 1] == CARRIAGE_RETURN {
        line.drop_last()
    } else {
        line
    }
}

/// One line of lookup output shows the proof: it starts with the proof
/// record's name, and the value between its first pair of quotes — or
/// from the first quote to the end of the line when no second quote
/// follows — is exactly the challenge value.
pub open spec fn spec_line_confirms(line: Seq<u8>, proof_domain: Seq<u8>, challenge: Seq<u8>) -> bool {
    let l = spec_trim_cr(line);
    let q1 = spec_find_byte(l, QUOTE, 0);
    &&& proof_domain.is_prefix_of(l)
    &&& q1 < l.len()
    &&& q1 + 1 < l.len()
    &&& l.subrange(q1 + 1, spec_find_byte(l, QUOTE, q1 + 1)) == challenge
}

/// Some line of the lookup output shows the proof.
pub open spec fn spec_any_line_confirms(s: Seq<u8>, proof_domain: Seq<u8>, challenge: Seq<u8>) -> bool
    decreases s.len(),
{
    if s.len() == 0 {
        false
    } else {
        let nl = spec_find_byte(s, LINE_FEED, 0);
        let line = s.subrange(0, nl);
        if 0 <= nl < s.len() {
            spec_line_confirms(line, proof_domain, challenge) || spec_any_line_confirms(
                s.subrange(nl + 1, s.len() as int),
                proof_domain,
                challenge,
            )
        } else {
            spec_line_confirms(s, proof_domain, challenge)
        }
    }
}

fn line_confirms(line: &[u8], proof_domain: &[u8], challenge: &[u8]) -> (r: bool)
    ensures
        r == spec_line_confirms(line@, proof_domain@, challenge@),
{
    let trimmed: &[u8] = if line.len() > 0 && line[line.len() - 1] == CARRIAGE_RETURN {
        &line[0..line.len() - 1]
    } else {
        line
    };
    proof {
        if line@.len() > 0 && line@[line@.len() - 1] == CARRIAGE_RETURN {
            assert(trimmed@ =~= spec_trim_cr(line@));
        } else {
            assert(trimmed@ =~= spec_trim_cr(line@));
        }
    }
    if !starts_with(trimmed, proof_domain) {
        return false;
    }
    let q1 = find_byte(trimmed, QUOTE, 0);
    proof {
        lemma_find_byte_props(trimmed@, QUOTE, 0);
    }
    if q1 >= trimmed.len() {
        return false;
    }
    if q1 + 1 >= trimmed.len() {
        return false;
    }
    let q2 = find_byte(trimmed, QUOTE, q1 + 1);
    proof {
        lemma_find_byte_props(trimmed@, QUOTE, q1 + 1);
    }
    bytes_eq(&trimmed[q1 + 1..q2], challenge)
}

/// Reads a DNS lookup's text output and reports whether the expected
/// DNS-01 proof record is visible in it: some line names the proof record
/// and quotes exactly the challenge value. The propagation wait ends only
/// when this returns true.
pub fn propagation_observed(output: &[u8], proof_domain: &[u8], challenge: &[u8]) -> (r: bool)
    ensures
        r == spec_any_line_confirms(output@, proof_domain@, challenge@),
{
    let mut rest: &[u8] = output;
    while rest.len() > 0
        invariant
            spec_any_line_confirms(output@, proof_domain@, challenge@)
                == spec_any_line_confirms(rest@, proof_domain@, challenge@),
        decreases rest@.len(),
    {
        let nl = find_byte(rest, LINE_FEED, 0);
        proof {
            lemma_find_byte_props(rest@, LINE_FEED, 0);
        }
        if nl == rest.len() {
            proof {
                assert(rest@.subrange(0, nl as int) =~= rest@);
            }
            return line_confirms(rest, proof_domain, challenge);
        }
        let line: &[u8] = &rest[0..nl];
        if line_confirms(line, proof_domain, challenge) {
            return true;
        }
        rest = &rest[nl + 1..rest.len()];
    }
    false
}

/// Where the certificate provisioner stands.
pub enum ProvisionerState {
    /// No settings seen yet; nothing to provision for.
    AwaitingSettings,
    /// Settings are known and an acquisition attempt is running.
    Acquiring(HmdlSetup),
    /// A configuration has been published; renewals keep it fresh.
    Serving(HmdlSetup),
}

pub ghost enum ProvisionerStateV {
    AwaitingSettings,
    Acquiring(HmdlSetupV),
    Serving(HmdlSetupV),
}

impl View for ProvisionerState {
    type V = ProvisionerStateV;

    open spec fn view(&self) -> ProvisionerStateV {
        match self {
            ProvisionerState::AwaitingSettings => ProvisionerStateV::AwaitingSettings,
            ProvisionerState::Acquiring(s) => ProvisionerStateV::Acquiring(s@),
            ProvisionerState::Serving(s) => ProvisionerStateV::Serving(s@),
        }
    }
}

/// What the outside world reports to the provisioner.
pub enum ProvisionerEvent {
    /// A setup status arrived on its subscription.
    StatusReceived(SetupStatus),
    /// The blocking acquisition attempt came back with a certificate.
    AcquisitionSucceeded,
    /// The blocking acquisition attempt failed.
    AcquisitionFailed,
    /// The renewal interval elapsed.
    RenewalDue,
}

pub ghost enum ProvisionerEventV {
    StatusReceived(SetupStatusV),
    AcquisitionSucceeded,
    AcquisitionFailed,
    RenewalDue,
}

impl View for ProvisionerEvent {
    type V = ProvisionerEventV;

    open spec fn view(&self) -> ProvisionerEventV {
        match self {
            ProvisionerEvent::StatusReceived(s) => ProvisionerEventV::StatusReceived(s@),
            ProvisionerEvent::AcquisitionSucceeded => ProvisionerEventV::AcquisitionSucceeded,
            ProvisionerEvent::AcquisitionFailed => ProvisionerEventV::AcquisitionFailed,
            ProvisionerEvent::RenewalDue => ProvisionerEventV::RenewalDue,
        }
    }
}

/// What the provisioner asks its runner to do next.
pub enum ProvisionerAction {
    /// Keep waiting for events.
    Wait,
    /// Run one blocking certificate acquisition with these settings.
    StartAcquisition(HmdlSetup),
    /// Publish the acquired configuration, paired with these settings.
    PublishTlsConfig(HmdlSetup),
    /// Initial acquisition failed: surface the error; HTTPS stays down.
    ReportFatal,
    /// Run a renewal acquisition with these settings.
    StartRenewal(HmdlSetup),
    /// A renewal failed: keep the last good configuration live.
    KeepServing,
}

pub ghost enum ProvisionerActionV {
    Wait,
    StartAcquisition(HmdlSetupV),
    PublishTlsConfig(HmdlSetupV),
    ReportFatal,
    StartRenewal(HmdlSetupV),
    KeepServing,
}

impl View for ProvisionerAction {
    type V = ProvisionerActionV;

    open spec fn view(&self) -> ProvisionerActionV {
        match self {
            ProvisionerAction::Wait => ProvisionerActionV::Wait,
            ProvisionerAction::StartAcquisition(s) => ProvisionerActionV::StartAcquisition(s@),
            ProvisionerAction::PublishTlsConfig(s) => ProvisionerActionV::PublishTlsConfig(s@),
            ProvisionerAction::ReportFatal => ProvisionerActionV::ReportFatal,
            ProvisionerAction::StartRenewal(s) => ProvisionerActionV::StartRenewal(s@),
            ProvisionerAction::KeepServing => ProvisionerActionV::KeepServing,
        }
    }
}

/// The provisioner's whole behaviour, one event at a time: it waits for
/// the first status that carries settings, acquires, publishes on
/// success, reports the failure of an initial acquisition as fatal, and
/// once serving renews on schedule — a failed renewal keeps the last good
/// configuration live.
pub open spec fn spec_provisioner_step(s: ProvisionerStateV, e: ProvisionerEventV) -> (
    ProvisionerStateV,
    ProvisionerActionV,
) {
    match (s, e) {
        (ProvisionerStateV::AwaitingSettings, ProvisionerEventV::StatusReceived(st)) => match
            spec_status_settings(st) {
            Some(x) => (ProvisionerStateV::Acquiring(x), ProvisionerActionV::StartAcquisition(x)),
            None => (ProvisionerStateV::AwaitingSettings, ProvisionerActionV::Wait),
        },
        (ProvisionerStateV::Acquiring(x), ProvisionerEventV::AcquisitionSucceeded) => (
            ProvisionerStateV::Serving(x),
            ProvisionerActionV::PublishTlsConfig(x),
        ),
        (ProvisionerStateV::Acquiring(_), ProvisionerEventV::AcquisitionFailed) => (
            ProvisionerStateV::AwaitingSettings,
            ProvisionerActionV::ReportFatal,
        ),
        (ProvisionerStateV::Serving(x), ProvisionerEventV::RenewalDue) => (
            ProvisionerStateV::Serving(x),
            ProvisionerActionV::StartRenewal(x),
        ),
        (ProvisionerStateV::Serving(x), ProvisionerEventV::AcquisitionSucceeded) => (
            ProvisionerStateV::Serving(x),
            ProvisionerActionV::PublishTlsConfig(x),
        ),
        (ProvisionerStateV::Serving(x), ProvisionerEventV::AcquisitionFailed) => (
            ProvisionerStateV::Serving(x),
            ProvisionerActionV::KeepServing,
        ),
        (_, _) => (s, ProvisionerActionV::Wait),
    }
}

/// The certificate provisioner's decision core: the state machine that
/// drives acquisition, publication and renewal. Its runner performs the
/// blocking ACME and DNS work and reports each outcome back as an event.
pub struct AcmeProvisionService {
    state: ProvisionerState,
}

impl View for AcmeProvisionService {
    type V = ProvisionerStateV;

    closed spec fn view(&self) -> ProvisionerStateV {
        self.state@
    }
}

impl AcmeProvisionService {
    pub fn create() -> (r: AcmeProvisionService)
        ensures
            r@ == ProvisionerStateV::AwaitingSettings,
    {
        AcmeProvisionService { state: ProvisionerState::AwaitingSettings }
    }

    /// Takes one event and answers with the action to perform.
    pub fn on_event(&mut self, event: ProvisionerEvent) -> (action: ProvisionerAction)
        ensures
            (final(self)@, action@) == spec_provisioner_step(old(self)@, event@),
    {
        let (next, action) = match (&self.state, &event) {
            (ProvisionerState::AwaitingSettings, ProvisionerEvent::StatusReceived(st)) => {
                match crate::status::settings_of(st) {
                    Some(x) => {
                        let x2 = x.duplicate();
                        let x3 = x2.duplicate();
                        (
                            ProvisionerState::Acquiring(x2),
                            ProvisionerAction::StartAcquisition(x3),
                        )
                    },
                    None => (ProvisionerState::AwaitingSettings, ProvisionerAction::Wait),
                }
            },
            (ProvisionerState::Acquiring(x), ProvisionerEvent::AcquisitionSucceeded) => (
                ProvisionerState::Serving(x.duplicate()),
                ProvisionerAction::PublishTlsConfig(x.duplicate()),
            ),
            (ProvisionerState::Acquiring(_), ProvisionerEvent::AcquisitionFailed) => (
                ProvisionerState::AwaitingSettings,
                ProvisionerAction::ReportFatal,
            ),
            (ProvisionerState::Serving(x), ProvisionerEvent::RenewalDue) => (
                ProvisionerState::Serving(x.duplicate()),
                ProvisionerAction::StartRenewal(x.duplicate()),
            ),
            (ProvisionerState::Serving(x), ProvisionerEvent::AcquisitionSucceeded) => (
                ProvisionerState::Serving(x.duplicate()),
                ProvisionerAction::PublishTlsConfig(x.duplicate()),
            ),
            (ProvisionerState::Serving(x), ProvisionerEvent::AcquisitionFailed) => (
                ProvisionerState::Serving(x.duplicate()),
                ProvisionerAction::KeepServing,
            ),
            (_, _) => (duplicate_state(&self.state), ProvisionerAction::Wait),
        };
        self.state = next;
        action
    }
}

fn duplicate_state(s: &ProvisionerState) -> (r: ProvisionerState)
    ensures
        r@ == s@,
{
    match s {
        ProvisionerState::AwaitingSettings => ProvisionerState::AwaitingSettings,
        ProvisionerState::Acquiring(x) => ProvisionerState::Acquiring(x.duplicate()),
        ProvisionerState::Serving(x) => ProvisionerState::Serving(x.duplicate()),
    }
}

} // verus!
