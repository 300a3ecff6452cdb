use vstd::prelude::*;

use crate::acme_persist::AcmePersistKey;
use crate::clients::Clients;
use crate::decision::ClientGroupMember;
use crate::decision::Decision;
use crate::decision::DomainGroupMember;
use crate::decision::GroupsApplied;
use crate::decision::evaluate_block_policy;
use crate::decision::spec_blocked;
use crate::domain::DomainName;
use crate::known_domains::KnownDomains;
use crate::known_domains::spec_log_target;
use crate::net::IpAddress;
use crate::status::SettingsStore;

verus! {

/// The client name a query is recorded under: the resolved hostname, or
/// the hardware address when the neighbor table knows no hostname and
/// answers with its question-mark placeholder.
pub open spec fn spec_resolved_client_name(hostname: Seq<char>, mac: Seq<char>) -> Seq<char> {
    if hostname.len() == 1 && hostname[0] == '?' {
        mac
    } else {
        hostname
    }
}

/// Picks the name a client is recorded under.
pub fn resolve_client_name(hostname: String, mac: &String) -> (r: String)
    ensures
        r@ == spec_resolved_client_name(hostname@, mac@),
{
    let s = hostname.as_str();
    if s.unicode_len() == 1 && s.get_char(0) == '?' {
        mac.clone()
    } else {
        hostname
    }
}

/// The one shared mutable state of the system: settings, the query
/// history, the client inventory, the policy tables, and the persisted
/// ACME artifacts. Everything the filtering path writes, it writes here.
pub struct PolicyStore {
    pub settings: SettingsStore,
    pub known_domains: KnownDomains,
    pub clients: Clients,
    pub domain_members: Vec<DomainGroupMember>,
    pub client_members: Vec<ClientGroupMember>,
    pub applied: Vec<GroupsApplied>,
    pub acme_persist: AcmePersistKey,
}

impl PolicyStore {
    pub open spec fn wf(&self) -> bool {
        &&& self.known_domains.wf()
        &&& self.clients.wf()
        &&& self.acme_persist.wf()
    }

    /// An empty store, as a fresh installation finds it.
    pub fn new() -> (r: PolicyStore)
        ensures
            r.wf(),
            r.settings@ is None,
            r.known_domains@ == Map::<Seq<Seq<u8>>, (i64, IpAddress)>::empty(),
            r.clients@ == Map::<Seq<char>, (IpAddress, Seq<char>)>::empty(),
            r.domain_members@.len() == 0,
            r.client_members@.len() == 0,
            r.applied@.len() == 0,
            r.acme_persist@ == Map::<Seq<char>, Seq<u8>>::empty(),
    {
        PolicyStore {
            settings: SettingsStore::new(),
            known_domains: KnownDomains::new(),
            clients: Clients::new(),
            domain_members: Vec::new(),
            client_members: Vec::new(),
            applied: Vec::new(),
            acme_persist: AcmePersistKey::create(),
        }
    }

    /// Puts a domain into a domain group.
    pub fn add_domain_group_member(
        &mut self,
        domain: DomainName,
        group: String,
        manually_set: bool,
    )
        ensures
            final(self).domain_members@ == old(self).domain_members@.push(
                (DomainGroupMember { domain, group, manually_set }),
            ),
            final(self).settings == old(self).settings,
            final(self).known_domains == old(self).known_domains,
            final(self).clients == old(self).clients,
            final(self).client_members == old(self).client_members,
            final(self).applied == old(self).applied,
            final(self).acme_persist == old(self).acme_persist,
    {
        self.domain_members.push(DomainGroupMember { domain, group, manually_set });
    }

    /// Puts a client into a client group.
    pub fn add_client_group_member(&mut self, client: String, group: String)
        ensures
            final(self).client_members@ == old(self).client_members@.push(
                (ClientGroupMember { client, group }),
            ),
            final(self).settings == old(self).settings,
            final(self).known_domains == old(self).known_domains,
            final(self).clients == old(self).clients,
            final(self).domain_members == old(self).domain_members,
            final(self).applied == old(self).applied,
            final(self).acme_persist == old(self).acme_persist,
    {
        self.client_members.push(ClientGroupMember { client, group });
    }

    /// Applies a domain group's rule to a client group.
    pub fn add_groups_applied(&mut self, client_group: String, domain_group: String)
        ensures
            final(self).applied@ == old(self).applied@.push(
                (GroupsApplied { client_group, domain_group }),
            ),
            final(self).settings == old(self).settings,
            final(self).known_domains == old(self).known_domains,
            final(self).clients == old(self).clients,
            final(self).domain_members == old(self).domain_members,
            final(self).client_members == old(self).client_members,
            final(self).acme_persist == old(self).acme_persist,
    {
        self.applied.push(GroupsApplied { client_group, domain_group });
    }

    /// The block decision for one (client address, domain) pair over the
    /// store as it stands; reads only.
    pub fn decide(&self, client_ip: IpAddress, domain: &DomainName) -> (r: Decision)
        requires
            self.wf(),
        ensures
            (r == Decision::Block) == spec_blocked(
                self.domain_members.deep_view(),
                self.applied.deep_view(),
                self.client_members.deep_view(),
                self.clients@,
                domain@,
                client_ip,
            ),
            r == Decision::Allow || r == Decision::Block,
    {
        evaluate_block_policy(
            &self.domain_members,
            &self.applied,
            &self.client_members,
            &self.clients,
            domain,
            client_ip,
        )
    }

    /// One query through the filtering path, the neighbor-table answer
    /// already in hand: records the client, records the domain against its
    /// most specific known ancestor, and decides over the updated store
    /// and the recorded name. Without a client identity — the lookup
    /// failed — the path fails open: nothing is written and the query is
    /// allowed.
    pub fn should_filter(
        &mut self,
        client_ip: IpAddress,
        client_identity: Option<(String, String)>,
        domain: &DomainName,
        ts: i64,
    ) -> (r: Decision)
        requires
            old(self).wf(),
        ensures
            final(self).wf(),
            final(self).settings == old(self).settings,
            final(self).domain_members == old(self).domain_members,
            final(self).client_members == old(self).client_members,
            final(self).applied == old(self).applied,
            final(self).acme_persist == old(self).acme_persist,
            match client_identity {
                None => {
                    &&& r == Decision::Allow
                    &&& final(self).clients == old(self).clients
                    &&& final(self).known_domains == old(self).known_domains
                },
                Some(id) => {
                    let name = spec_resolved_client_name(id.0@, id.1@);
                    let clients2 = old(self).clients@.insert(name, (client_ip, id.1@));
                    let target = spec_log_target(old(self).known_domains@.dom(), domain@);
                    &&& final(self).clients@ == clients2
                    &&& final(self).known_domains@ == old(self).known_domains@.insert(
                        target,
                        (ts, client_ip),
                    )
                    &&& (r == Decision::Block) == spec_blocked(
                        old(self).domain_members.deep_view(),
                        old(self).applied.deep_view(),
                        old(self).client_members.deep_view(),
                        clients2,
                        target,
                        client_ip,
                    )
                    &&& (r == Decision::Allow || r == Decision::Block)
                },
            },
    {
        match client_identity {
            None => Decision::Allow,
            Some((hostname, mac)) => {
                let name = resolve_client_name(hostname, &mac);
                self.clients.log_client(name, client_ip, mac);
                let logged = self.known_domains.log_domain(domain, ts, client_ip);
                evaluate_block_policy(
                    &self.domain_members,
                    &self.applied,
                    &self.client_members,
                    &self.clients,
                    &logged,
                    client_ip,
                )
            },
        }
    }

    /// Records one domain observation stamped with the clock's time now.
    pub fn log_domain_now(&mut self, domain: &DomainName, client: IpAddress) -> (logged:
        DomainName)
        requires
            old(self).wf(),
        ensures
            final(self).wf(),
            final(self).settings == old(self).settings,
            final(self).clients == old(self).clients,
            final(self).domain_members == old(self).domain_members,
            final(self).client_members == old(self).client_members,
            final(self).applied == old(self).applied,
            final(self).acme_persist == old(self).acme_persist,
            logged@ == spec_log_target(old(self).known_domains@.dom(), domain@),
            exists|ts: i64|
                final(self).known_domains@ == old(self).known_domains@.insert(
                    logged@,
                    (ts, client),
                ),
    {
        let ts = current_time_millis();
        self.known_domains.log_domain(domain, ts, client)
    }
}

/// Relies on chrono::Utc::now: the milliseconds since the Unix epoch at
/// the moment of the call. The clock alone decides the value, so nothing
/// is promised of it.
#[verifier::external_body]
fn current_time_millis() -> (r: i64) {
    chrono::Utc::now().timestamp_millis()
}

} // verus!
