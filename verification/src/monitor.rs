use vstd::prelude::*;

use crate::net::IpAddress;
use crate::net::IpSet;
use crate::net::spec_has_unicast_link_local_scope;
use crate::net::spec_is_servable;

verus! {

/// What can go wrong while watching the machine's addresses.
#[derive(Debug)]
pub enum IpProvderServiceError {
    /// The interface enumeration itself failed; the text carries the
    /// enumerator's account of it. This is reported upward, never folded
    /// into an empty published set.
    LocalIpError(String),
}

impl IpProvderServiceError {
    /// The enumerator's account of the failure, for reporting.
    pub fn describe(&self) -> (r: String)
        ensures
            match self {
                IpProvderServiceError::LocalIpError(m) => r@ == m@,
            },
    {
        match self {
            IpProvderServiceError::LocalIpError(m) => m.clone(),
        }
    }
}

/// Watches the machine's set of servable addresses and decides when the
/// current set must be published: always for the first sample, later
/// exactly when the set differs from the one last published.
pub struct IpProvderService {
    current: Option<IpSet>,
}

/// The decision the monitor takes on one sample: the set it holds
/// afterwards, and whether it publishes.
pub open spec fn spec_observe(current: Option<Set<IpAddress>>, sample: Set<IpAddress>) -> (
    Option<Set<IpAddress>>,
    bool,
) {
    match current {
        None => (Some(sample), true),
        Some(c) => if c == sample {
            (Some(c), false)
        } else {
            (Some(sample), true)
        },
    }
}

impl View for IpProvderService {
    type V = Option<Set<IpAddress>>;

    closed spec fn view(&self) -> Option<Set<IpAddress>> {
        match self.current {
            None => None,
            Some(ref s) => Some(s@),
        }
    }
}

impl IpProvderService {
    pub closed spec fn wf(&self) -> bool {
        match self.current {
            None => true,
            Some(ref s) => s.wf(),
        }
    }

    /// A monitor that has published nothing yet.
    pub fn create() -> (r: IpProvderService)
        ensures
            r@ is None,
            r.wf(),
    {
        IpProvderService { current: None }
    }

    /// Takes one sample of the address set. Returns the set to publish,
    /// or nothing when subscribers already hold it: the first sample is
    /// always published, even when it is empty, and a later one exactly
    /// when it differs as a set from the last published one.
    pub fn observe(&mut self, sample: IpSet) -> (published: Option<IpSet>)
        requires
            old(self).wf(),
            sample.wf(),
        ensures
            final(self).wf(),
            final(self)@ == spec_observe(old(self)@, sample@).0,
            published is Some <==> spec_observe(old(self)@, sample@).1,
            match published {
                Some(p) => p@ == sample@ && p.wf(),
                None => true,
            },
    {
        let changed = match &self.current {
            None => true,
            Some(c) => !c.set_eq(&sample),
        };
        if changed {
            let out = sample.duplicate();
            self.current = Some(sample);
            Some(out)
        } else {
            None
        }
    }

    /// Whether an IPv6 address, given as its 128 bits, has unicast
    /// link-local scope (fe80::/10).
    pub fn has_unicast_link_local_scope(addr: u128) -> (r: bool)
        ensures
            r == spec_has_unicast_link_local_scope(addr),
    {
        0xfe80_0000_0000_0000_0000_0000_0000_0000 <= addr
            && addr <= 0xfebf_ffff_ffff_ffff_ffff_ffff_ffff_ffff
    }

    /// The machine's servable addresses right now: every interface
    /// address that is not of link-local scope. What comes back depends
    /// on the machine; every member of the result is servable.
    pub fn server_ips() -> (r: Result<IpSet, IpProvderServiceError>)
        ensures
            match r {
                Ok(s) => s.wf() && forall|a: IpAddress| #[trigger]
                    s@.contains(a) ==> spec_is_servable(a),
                Err(_) => true,
            },
    {
        match list_interface_addresses() {
            Ok(list) => Ok(filter_servable(&list)),
            Err(e) => Err(e),
        }
    }
}

/// Keeps exactly the servable addresses of an interface listing.
pub fn filter_servable(addrs: &Vec<(String, IpAddress)>) -> (r: IpSet)
    ensures
        r.wf(),
        forall|a: IpAddress| #[trigger]
            r@.contains(a) <==> ((exists|i: int|
                0 <= i < addrs@.len() && (#[trigger] addrs@[i]).1 == a) && spec_is_servable(a)),
{
    let mut r = IpSet::new();
    let mut i: usize = 0;
    while i < addrs.len()
        invariant
            i <= addrs@.len(),
            r.wf(),
            forall|a: IpAddress| #[trigger]
                r@.contains(a) <==> ((exists|j: int|
                    0 <= j < i && (#[trigger] addrs@[j]).1 == a) && spec_is_servable(a)),
        decreases addrs@.len() - i,
    {
        let a = addrs[i].1;
        if a.is_servable() {
            r.insert(a);
        }
        proof {
            assert forall|b: IpAddress| #[trigger] r@.contains(b) implies ((exists|j: int|
                0 <= j < i + 1 && (#[trigger] addrs@[j]).1 == b) && spec_is_servable(b)) by {
                if b == a {
                    assert((addrs@[i as int]).1 == b);
                }
            }
            assert forall|b: IpAddress|
                ((exists|j: int| 0 <= j < i + 1 && (#[trigger] addrs@[j]).1 == b)
                    && spec_is_servable(b)) implies #[trigger] r@.contains(b) by {
                let j = choose|j: int| 0 <= j < i + 1 && (#[trigger] addrs@[j]).1 == b;
            }
        }
        i += 1;
    }
    r
}

/// Relies on local_ip_address::list_afinet_netifas: enumerates the
/// machine's interface addresses. What it returns depends on the machine
/// alone, so nothing is promised of the listing; a failure of the
/// enumeration comes back as the error.
#[verifier::external_body]
fn list_interface_addresses() -> (r: Result<Vec<(String, IpAddress)>, IpProvderServiceError>) {
    match local_ip_address::list_afinet_netifas() {
        Ok(list) => Ok(
            list.into_iter().map(
                |(name, addr)| (
                    name,
                    match addr {
                        core::net::IpAddr::V4(v4) => IpAddress::V4(u32::from(v4)),
                        core::net::IpAddr::V6(v6) => IpAddress::V6(u128::from(v6)),
                    },
                ),
            ).collect(),
        ),
        Err(e) => Err(IpProvderServiceError::LocalIpError(format!("{}", e))),
    }
}

/// The monitor publishes exactly once on startup, however empty the first
/// sample is, and afterwards publishes again exactly when the sampled set
/// differs from the one it holds; when it stays quiet, it keeps holding
/// the same set.
pub proof fn lemma_monitor_publishes(current: Option<Set<IpAddress>>, sample: Set<IpAddress>)
    ensures
        spec_observe(None, sample).1,
        current is Some ==> (spec_observe(current, sample).1 <==> current.unwrap() != sample),
        !spec_observe(current, sample).1 ==> spec_observe(current, sample).0 == current,
{
}

} // verus!
