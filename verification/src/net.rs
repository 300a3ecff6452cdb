use vstd::prelude::*;

verus! {

/// A network-layer address: IPv4 as its 32 bits, IPv6 as its 128 bits,
/// both in network order (most significant octet first).
#[derive(Clone, Copy, PartialEq, Eq, Structural, Debug, Hash)]
pub enum IpAddress {
    V4(u32),
    V6(u128),
}

/// The IPv4 loopback block 127.0.0.0/8, or the IPv6 loopback address ::1.
pub open spec fn spec_is_loopback(a: IpAddress) -> bool {
    match a {
        IpAddress::V4(v) => 0x7f00_0000 <= v <= 0x7fff_ffff,
        IpAddress::V6(v) => v == 1,
    }
}

/// The IPv4 link-local block 169.254.0.0/16.
pub open spec fn spec_is_link_local_v4(v: u32) -> bool {
    0xa9fe_0000 <= v <= 0xa9fe_ffff
}

/// An IPv6 address whose first segment masked with 0xffc0 is 0xfe80,
/// written as the range it denotes.
pub open spec fn spec_has_unicast_link_local_scope(v: u128) -> bool {
    0xfe80_0000_0000_0000_0000_0000_0000_0000 <= v
        <= 0xfebf_ffff_ffff_ffff_ffff_ffff_ffff_ffff
}

/// An address the appliance may serve on: anything but link-local scope.
pub open spec fn spec_is_servable(a: IpAddress) -> bool {
    match a {
        IpAddress::V4(v) => !spec_is_link_local_v4(v),
        IpAddress::V6(v) => !spec_has_unicast_link_local_scope(v),
    }
}

impl IpAddress {
    pub fn is_loopback(&self) -> (r: bool)
        ensures
            r == spec_is_loopback(*self),
    {
        match self {
            IpAddress::V4(v) => 0x7f00_0000 <= *v && *v <= 0x7fff_ffff,
            IpAddress::V6(v) => *v == 1,
        }
    }

    pub fn is_servable(&self) -> (r: bool)
        ensures
            r == spec_is_servable(*self),
    {
        match self {
            IpAddress::V4(v) => !(0xa9fe_0000 <= *v && *v <= 0xa9fe_ffff),
            IpAddress::V6(v) => !(0xfe80_0000_0000_0000_0000_0000_0000_0000 <= *v && *v
                <= 0xfebf_ffff_ffff_ffff_ffff_ffff_ffff_ffff),
        }
    }
}

/// A set of addresses, held without duplicates. Its view is the
/// mathematical set of its members; the order of the backing vector
/// carries no meaning.
pub struct IpSet {
    addrs: Vec<IpAddress>,
}

impl IpSet {
    pub closed spec fn view(&self) -> Set<IpAddress> {
        self.addrs@.to_set()
    }

    pub closed spec fn wf(&self) -> bool {
        self.addrs@.no_duplicates()
    }

    pub fn new() -> (r: IpSet)
        ensures
            r@ == Set::<IpAddress>::empty(),
            r.wf(),
    {
        let r = IpSet { addrs: Vec::new() };
        proof {
            assert(r@ =~= Set::<IpAddress>::empty());
        }
        r
    }

    pub fn contains(&self, a: &IpAddress) -> (r: bool)
        ensures
            r == self@.contains(*a),
    {
        let mut i: usize = 0;
        while i < self.addrs.len()
            invariant
                i <= self.addrs.len(),
                forall|j: int| 0 <= j < i ==> self.addrs@[j] != *a,
            decreases self.addrs.len() - i,
        {
            if self.addrs[i] == *a {
                assert(self.addrs@.contains(*a));
                return true;
            }
            i += 1;
        }
        assert(!self.addrs@.contains(*a));
        false
    }

    pub fn insert(&mut self, a: IpAddress)
        requires
            old(self).wf(),
        ensures
            final(self)@ == old(self)@.insert(a),
            final(self).wf(),
    {
        if !self.contains(&a) {
            self.addrs.push(a);
            proof {
                assert(self.addrs@.drop_last() =~= old(self).addrs@);
                assert(self.addrs@.no_duplicates());
                old(self).addrs@.lemma_push_to_set_commute(a);
            }
        } else {
            proof {
                assert(self@ =~= old(self)@.insert(a));
            }
        }
    }

    pub fn is_empty(&self) -> (r: bool)
        ensures
            r == (self@ =~= Set::<IpAddress>::empty()),
    {
        let r = self.addrs.len() == 0;
        proof {
            if self.addrs@.len() == 0 {
                assert(self@ =~= Set::<IpAddress>::empty());
            } else {
                assert(self@.contains(self.addrs@[0]));
            }
        }
        r
    }

    /// The members, each exactly once, in no meaningful order.
    pub fn members(&self) -> (r: &Vec<IpAddress>)
        requires
            self.wf(),
        ensures
            r@.to_set() == self@,
            r@.no_duplicates(),
    {
        &self.addrs
    }

    /// A fresh copy of the same set.
    pub fn duplicate(&self) -> (r: IpSet)
        requires
            self.wf(),
        ensures
            r@ == self@,
            r.wf(),
    {
        let mut addrs: Vec<IpAddress> = Vec::new();
        let mut i: usize = 0;
        while i < self.addrs.len()
            invariant
                i <= self.addrs@.len(),
                addrs@ =~= self.addrs@.subrange(0, i as int),
            decreases self.addrs@.len() - i,
        {
            addrs.push(self.addrs[i]);
            proof {
                assert(addrs@ =~= self.addrs@.subrange(0, i + 1 as int));
            }
            i += 1;
        }
        proof {
            assert(addrs@ =~= self.addrs@);
        }
        let r = IpSet { addrs };
        proof {
            assert(r@ =~= self@);
        }
        r
    }

    /// True exactly when the two sets hold the same addresses, whatever
    /// the order either arrived in.
    pub fn set_eq(&self, other: &IpSet) -> (r: bool)
        ensures
            r == (self@ == other@),
    {
        let mut i: usize = 0;
        while i < self.addrs.len()
            invariant
                i <= self.addrs@.len(),
                forall|j: int| 0 <= j < i ==> other@.contains(#[trigger] self.addrs@[j]),
            decreases self.addrs@.len() - i,
        {
            if !other.contains(&self.addrs[i]) {
                proof {
                    assert(self@.contains(self.addrs@[i as int]));
                }
                return false;
            }
            i += 1;
        }
        let mut j: usize = 0;
        while j < other.addrs.len()
            invariant
                j <= other.addrs@.len(),
                forall|k: int| 0 <= k < self.addrs@.len() ==> other@.contains(
                    #[trigger] self.addrs@[k],
                ),
                forall|k: int| 0 <= k < j ==> self@.contains(#[trigger] other.addrs@[k]),
            decreases other.addrs@.len() - j,
        {
            if !self.contains(&other.addrs[j]) {
                proof {
                    assert(other@.contains(other.addrs@[j as int]));
                }
                return false;
            }
            j += 1;
        }
        proof {
            assert forall|a: IpAddress| self@.contains(a) implies other@.contains(a) by {
                let k = choose|k: int| 0 <= k < self.addrs@.len() && self.addrs@[k] == a;
            }
            assert forall|a: IpAddress| other@.contains(a) implies self@.contains(a) by {
                let k = choose|k: int| 0 <= k < other.addrs@.len() && other.addrs@[k] == a;
            }
            assert(self@ =~= other@);
        }
        true
    }

    /// The same set with every loopback address removed.
    pub fn without_loopback(&self) -> (r: IpSet)
        ensures
            r.wf(),
            forall|a: IpAddress| #[trigger]
                r@.contains(a) <==> (self@.contains(a) && !spec_is_loopback(a)),
    {
        let mut r = IpSet::new();
        let mut i: usize = 0;
        while i < self.addrs.len()
            invariant
                i <= self.addrs@.len(),
                r.wf(),
                forall|a: IpAddress| #[trigger]
                    r@.contains(a) <==> ((exists|j: int|
                        0 <= j < i && #[trigger] self.addrs@[j] == a) && !spec_is_loopback(a)),
            decreases self.addrs@.len() - i,
        {
            let a = self.addrs[i];
            if !a.is_loopback() {
                r.insert(a);
            }
            proof {
                assert forall|b: IpAddress| #[trigger] r@.contains(b) implies ((exists|j: int|
                    0 <= j < i + 1 && #[trigger] self.addrs@[j] == b) && !spec_is_loopback(
                    b,
                )) by {
                    if b == a {
                        assert(self.addrs@[i as int] == b);
                    }
                }
            }
            i += 1;
        }
        proof {
            assert forall|a: IpAddress| #[trigger] r@.contains(a) implies (self@.contains(a)
                && !spec_is_loopback(a)) by {
                let j = choose|j: int|
                    0 <= j < self.addrs@.len() && #[trigger] self.addrs@[j] == a;
                assert(self.addrs@.contains(a));
            }
            assert forall|a: IpAddress| self@.contains(a) && !spec_is_loopback(a) implies
                #[trigger] r@.contains(a) by {
                let j = choose|j: int|
                    0 <= j < self.addrs@.len() && #[trigger] self.addrs@[j] == a;
            }
        }
        r
    }
}

} // verus!
