use vstd::prelude::*;

use crate::clients::Clients;
use crate::domain::DomainName;
use crate::net::IpAddress;

verus! {

/// The outcome of the block policy for one query.
#[derive(Clone, Copy, PartialEq, Eq, Structural, Debug)]
pub enum Decision {
    Allow,
    Block,
}

/// Membership of a domain in a domain group; `manually_set` records an
/// administrator override, and plays no part in the decision.
pub struct DomainGroupMember {
    pub domain: DomainName,
    pub group: String,
    pub manually_set: bool,
}

pub ghost struct DomainGroupMemberV {
    pub domain: Seq<Seq<u8>>,
    pub group: Seq<char>,
    pub manually_set: bool,
}

impl View for DomainGroupMember {
    type V = DomainGroupMemberV;

    open spec fn view(&self) -> DomainGroupMemberV {
        DomainGroupMemberV {
            domain: self.domain@,
            group: self.group@,
            manually_set: self.manually_set,
        }
    }
}

impl DeepView for DomainGroupMember {
    type V = DomainGroupMemberV;

    open spec fn deep_view(&self) -> DomainGroupMemberV {
        self.view()
    }
}

/// Membership of a client in a client group.
pub struct ClientGroupMember {
    pub client: String,
    pub group: String,
}

pub ghost struct ClientGroupMemberV {
    pub client: Seq<char>,
    pub group: Seq<char>,
}

impl View for ClientGroupMember {
    type V = ClientGroupMemberV;

    open spec fn view(&self) -> ClientGroupMemberV {
        ClientGroupMemberV { client: self.client@, group: self.group@ }
    }
}

impl DeepView for ClientGroupMember {
    type V = ClientGroupMemberV;

    open spec fn deep_view(&self) -> ClientGroupMemberV {
        self.view()
    }
}

/// One applied-groups pair: the named client group's policy includes the
/// named domain group's rule.
pub struct GroupsApplied {
    pub client_group: String,
    pub domain_group: String,
}

pub ghost struct GroupsAppliedV {
    pub client_group: Seq<char>,
    pub domain_group: Seq<char>,
}

impl View for GroupsApplied {
    type V = GroupsAppliedV;

    open spec fn view(&self) -> GroupsAppliedV {
        GroupsAppliedV { client_group: self.client_group@, domain_group: self.domain_group@ }
    }
}

impl DeepView for GroupsApplied {
    type V = GroupsAppliedV;

    open spec fn deep_view(&self) -> GroupsAppliedV {
        self.view()
    }
}

/// Some member of the named client group is recorded with this address.
pub open spec fn spec_client_group_hit(
    cgm: Seq<ClientGroupMemberV>,
    clients: Map<Seq<char>, (IpAddress, Seq<char>)>,
    group: Seq<char>,
    ip: IpAddress,
) -> bool {
    exists|k: int|
        0 <= k < cgm.len() && (#[trigger] cgm[k]).group == group && clients.contains_key(
            cgm[k].client,
        ) && clients[cgm[k].client].0 == ip
}

/// The named domain group is applied to some client group that has a
/// member with this address.
pub open spec fn spec_applied_hit(
    ga: Seq<GroupsAppliedV>,
    cgm: Seq<ClientGroupMemberV>,
    clients: Map<Seq<char>, (IpAddress, Seq<char>)>,
    domain_group: Seq<char>,
    ip: IpAddress,
) -> bool {
    exists|j: int|
        0 <= j < ga.len() && (#[trigger] ga[j]).domain_group == domain_group
            && spec_client_group_hit(cgm, clients, ga[j].client_group, ip)
}

/// The block decision of the policy: the domain belongs to a domain group
/// that is applied to a client group holding a client recorded with the
/// requesting address. Anything else is allowed.
pub open spec fn spec_blocked(
    dgm: Seq<DomainGroupMemberV>,
    ga: Seq<GroupsAppliedV>,
    cgm: Seq<ClientGroupMemberV>,
    clients: Map<Seq<char>, (IpAddress, Seq<char>)>,
    domain: Seq<Seq<u8>>,
    ip: IpAddress,
) -> bool {
    exists|i: int|
        0 <= i < dgm.len() && (#[trigger] dgm[i]).domain == domain && spec_applied_hit(
            ga,
            cgm,
            clients,
            dgm[i].group,
            ip,
        )
}

fn client_group_hit(
    cgm: &Vec<ClientGroupMember>,
    clients: &Clients,
    group: &String,
    ip: IpAddress,
) -> (r: bool)
    requires
        clients.wf(),
    ensures
        r == spec_client_group_hit(cgm.deep_view(), clients@, group@, ip),
{
    let mut k: usize = 0;
    while k < cgm.len()
        invariant
            clients.wf(),
            k <= cgm@.len(),
            cgm.deep_view().len() == cgm@.len(),
            forall|k2: int|
                0 <= k2 < k ==> !((#[trigger] cgm.deep_view()[k2]).group == group@
                    && clients@.contains_key(cgm.deep_view()[k2].client) && clients@[cgm.deep_view()[
                    k2
                ].client].0 == ip),
        decreases cgm@.len() - k,
    {
        proof {
            assert(cgm.deep_view()[k as int] == cgm@[k as int]@);
        }
        if cgm[k].group == *group {
            match clients.ip_of(&cgm[k].client) {
                Some(cip) => {
                    if cip == ip {
                        proof {
                            assert((cgm.deep_view()[k as int]).group == group@
                                && clients@.contains_key(cgm.deep_view()[k as int].client)
                                && clients@[cgm.deep_view()[k as int].client].0 == ip);
                        }
                        return true;
                    }
                },
                None => {},
            }
        }
        k += 1;
    }
    false
}

fn applied_hit(
    ga: &Vec<GroupsApplied>,
    cgm: &Vec<ClientGroupMember>,
    clients: &Clients,
    domain_group: &String,
    ip: IpAddress,
) -> (r: bool)
    requires
        clients.wf(),
    ensures
        r == spec_applied_hit(ga.deep_view(), cgm.deep_view(), clients@, domain_group@, ip),
{
    let mut j: usize = 0;
    while j < ga.len()
        invariant
            clients.wf(),
            j <= ga@.len(),
            ga.deep_view().len() == ga@.len(),
            forall|j2: int|
                0 <= j2 < j ==> !((#[trigger] ga.deep_view()[j2]).domain_group == domain_group@
                    && spec_client_group_hit(
                    cgm.deep_view(),
                    clients@,
                    ga.deep_view()[j2].client_group,
                    ip,
                )),
        decreases ga@.len() - j,
    {
        proof {
            assert(ga.deep_view()[j as int] == ga@[j as int]@);
        }
        if ga[j].domain_group == *domain_group {
            if client_group_hit(cgm, clients, &ga[j].client_group, ip) {
                return true;
            }
        }
        j += 1;
    }
    false
}

/// Evaluates the block policy for one (client address, domain) pair over
/// the group tables and the client inventory. Reads only; the decision is
/// a function of its arguments and nothing else.
pub fn evaluate_block_policy(
    dgm: &Vec<DomainGroupMember>,
    ga: &Vec<GroupsApplied>,
    cgm: &Vec<ClientGroupMember>,
    clients: &Clients,
    domain: &DomainName,
    client_ip: IpAddress,
) -> (r: Decision)
    requires
        clients.wf(),
    ensures
        (r == Decision::Block) == spec_blocked(
            dgm.deep_view(),
            ga.deep_view(),
            cgm.deep_view(),
            clients@,
            domain@,
            client_ip,
        ),
        r == Decision::Allow || r == Decision::Block,
{
    let mut i: usize = 0;
    while i < dgm.len()
        invariant
            clients.wf(),
            i <= dgm@.len(),
            dgm.deep_view().len() == dgm@.len(),
            forall|i2: int|
                0 <= i2 < i ==> !((#[trigger] dgm.deep_view()[i2]).domain == domain@
                    && spec_applied_hit(
                    ga.deep_view(),
                    cgm.deep_view(),
                    clients@,
                    dgm.deep_view()[i2].group,
                    client_ip,
                )),
        decreases dgm@.len() - i,
    {
        proof {
            assert(dgm.deep_view()[i as int] == dgm@[i as int]@);
        }
        if dgm[i].domain.same_name(domain) {
            if applied_hit(ga, cgm, clients, &dgm[i].group, client_ip) {
                return Decision::Block;
            }
        }
        i += 1;
    }
    Decision::Allow
}

/// The response code the DNS authority answers a blocked query with: a
/// private-use code, since the standard code space has none for a policy
/// block. An allowed query carries no code and is forwarded instead.
pub const BLOCK_RESPONSE_CODE: u16 = 3841;

/// What the DNS front answers for a decision: the policy-rejection
/// response code for a block, or nothing — forward upstream — for an
/// allow.
pub fn decision_response_code(d: &Decision) -> (r: Option<u16>)
    ensures
        match d {
            Decision::Block => r == Some(BLOCK_RESPONSE_CODE),
            Decision::Allow => r is None,
        },
{
    match d {
        Decision::Block => Some(BLOCK_RESPONSE_CODE),
        Decision::Allow => None,
    }
}

} // verus!
