//! Service-coordination and DNS-filtering core of a self-hosted filtering
//! resolver appliance: the installation state machine, the allow/block
//! decision engine with its ancestor-aware domain log, the IP-change
//! monitor, the DNS-record reconciliation planner, and the certificate
//! provisioner's decision logic.
//!
//! Network, database and process I/O live outside this crate; every function
//! here computes over plain values and carries a verified contract.

pub mod acme_persist;
pub mod arp;
pub mod bus;
pub mod clients;
pub mod decision;
pub mod domain;
pub mod install;
pub mod known_domains;
pub mod monitor;
pub mod net;
pub mod provision;
pub mod reconcile;
pub mod status;
pub mod store;
pub mod text;

pub use acme_persist::AcmePersistEntry;
pub use acme_persist::AcmePersistKey;
pub use arp::ArpError;
pub use arp::lookup_mac_in_output;
pub use arp::loopback_identity;
pub use clients::ClientRecord;
pub use clients::Clients;
pub use decision::ClientGroupMember;
pub use decision::Decision;
pub use decision::DomainGroupMember;
pub use decision::GroupsApplied;
pub use decision::decision_response_code;
pub use decision::evaluate_block_policy;
pub use bus::Topic;
pub use domain::DomainName;
pub use install::MakeHttpsError;
pub use install::SetupStatusResp;
pub use install::is_setup;
pub use install::make_https;
pub use known_domains::KnownDomain;
pub use known_domains::KnownDomains;
pub use monitor::IpProvderService;
pub use monitor::IpProvderServiceError;
pub use monitor::filter_servable;
pub use net::IpAddress;
pub use net::IpSet;
pub use provision::AcmeProvisionService;
pub use provision::CertificateAction;
pub use provision::ProvisionerAction;
pub use provision::ProvisionerEvent;
pub use provision::ProvisionerState;
pub use provision::create_proof_domain;
pub use provision::evaluate_existing_certificate;
pub use provision::propagation_observed;
pub use reconcile::CloudflareAService;
pub use reconcile::DnsRecordEntry;
pub use reconcile::ReconcilePlan;
pub use status::HmdlSetup;
pub use store::PolicyStore;
pub use store::resolve_client_name;
pub use status::InstallationStatusService;
pub use status::SettingsRecord;
pub use status::SettingsStore;
pub use status::SetupError;
pub use status::SetupStatus;
pub use status::settings_of;
