use vstd::prelude::*;

use crate::net::IpAddress;

verus! {

/// One client device: its stable name (resolved hostname, or hardware
/// address when no hostname is known), current network address, and
/// hardware address.
pub struct ClientRecord {
    pub name: String,
    pub ip: IpAddress,
    pub mac: String,
}

pub open spec fn spec_client_key(r: ClientRecord) -> Seq<char> {
    r.name@
}

/// The client inventory. Its view maps each client name to its current
/// network address and hardware address.
pub struct Clients {
    rows: Vec<ClientRecord>,
}

spec fn spec_map_of(rows: Seq<ClientRecord>) -> Map<Seq<char>, (IpAddress, Seq<char>)>
    decreases rows.len(),
{
    if rows.len() == 0 {
        Map::empty()
    } else {
        spec_map_of(rows.drop_last()).insert(
            rows.last().name@,
            (rows.last().ip, rows.last().mac@),
        )
    }
}

spec fn spec_unique_names(rows: Seq<ClientRecord>) -> bool {
    forall|i: int, j: int|
        0 <= i < j < rows.len() ==> spec_client_key(#[trigger] rows[i]) != spec_client_key(
            #[trigger] rows[j],
        )
}

proof fn lemma_map_of_props(rows: Seq<ClientRecord>)
    ensures
        forall|k: Seq<char>|
            #[trigger] spec_map_of(rows).contains_key(k) <==> exists|i: int|
                0 <= i < rows.len() && #[trigger] spec_client_key(rows[i]) == k,
        spec_unique_names(rows) ==> forall|i: int|
            0 <= i < rows.len() ==> spec_map_of(rows)[spec_client_key(#[trigger] rows[i])] == (
            rows[i].ip,
            rows[i].mac@,
            ),
    decreases rows.len(),
{
    if rows.len() > 0 {
        let inner = rows.drop_last();
        lemma_map_of_props(inner);
        assert(forall|i: int| 0 <= i < inner.len() ==> #[trigger] rows[i] == inner[i]);
        assert forall|k: Seq<char>| #[trigger]
            spec_map_of(rows).contains_key(k) implies exists|i: int|
            0 <= i < rows.len() && #[trigger] spec_client_key(rows[i]) == k by {
            if k == rows.last().name@ {
                assert(spec_client_key(rows[rows.len() - 1]) == k);
            } else {
                assert(spec_map_of(inner).contains_key(k));
                let i = choose|i: int|
                    0 <= i < inner.len() && #[trigger] spec_client_key(inner[i]) == k;
                assert(spec_client_key(rows[i]) == k);
            }
        }
        assert forall|k: Seq<char>|
            (exists|i: int| 0 <= i < rows.len() && #[trigger] spec_client_key(rows[i]) == k)
            implies #[trigger] spec_map_of(rows).contains_key(k) by {
            let i = choose|i: int| 0 <= i < rows.len() && #[trigger] spec_client_key(rows[i]) == k;
            if i < rows.len() - 1 {
                assert(spec_client_key(inner[i]) == k);
                assert(spec_map_of(inner).contains_key(k));
            }
        }
        if spec_unique_names(rows) {
            assert(spec_unique_names(inner));
            assert forall|i: int| 0 <= i < rows.len() implies spec_map_of(rows)[spec_client_key(
                #[trigger] rows[i],
            )] == (rows[i].ip, rows[i].mac@) by {
                if i < rows.len() - 1 {
                    assert(spec_client_key(inner[i]) == rows[i].name@);
                    assert(rows[i].name@ != rows.last().name@);
                    assert(spec_map_of(inner)[spec_client_key(inner[i])] == (
                        inner[i].ip,
                        inner[i].mac@,
                    ));
                }
            }
        }
    }
}

proof fn lemma_map_of_update(rows: Seq<ClientRecord>, i: int, r: ClientRecord)
    requires
        spec_unique_names(rows),
        0 <= i < rows.len(),
        r.name@ == rows[i].name@,
    ensures
        spec_map_of(rows.update(i, r)) == spec_map_of(rows).insert(r.name@, (r.ip, r.mac@)),
        spec_unique_names(rows.update(i, r)),
    decreases rows.len(),
{
    let updated = rows.update(i, r);
    assert(spec_unique_names(updated)) by {
        assert(forall|j: int| 0 <= j < rows.len() && j != i ==> updated[j] == rows[j]);
        assert(updated[i] == r);
    }
    if i == rows.len() - 1 {
        assert(updated.drop_last() =~= rows.drop_last());
        assert(updated.last() == r);
        assert(spec_map_of(rows).insert(r.name@, (r.ip, r.mac@)) =~= spec_map_of(
            rows.drop_last(),
        ).insert(r.name@, (r.ip, r.mac@)));
    } else {
        assert(updated.drop_last() =~= rows.drop_last().update(i, r));
        assert(spec_unique_names(rows.drop_last()));
        assert(rows.drop_last()[i] == rows[i]);
        lemma_map_of_update(rows.drop_last(), i, r);
        assert(updated.last() == rows.last());
        assert(r.name@ != rows.last().name@);
        assert(spec_map_of(updated) =~= spec_map_of(rows).insert(r.name@, (r.ip, r.mac@)));
    }
}

proof fn lemma_map_of_push(rows: Seq<ClientRecord>, r: ClientRecord)
    requires
        spec_unique_names(rows),
        forall|i: int| 0 <= i < rows.len() ==> spec_client_key(#[trigger] rows[i]) != r.name@,
    ensures
        spec_map_of(rows.push(r)) == spec_map_of(rows).insert(r.name@, (r.ip, r.mac@)),
        spec_unique_names(rows.push(r)),
{
    assert(rows.push(r).drop_last() =~= rows);
    assert(rows.push(r).last() == r);
    assert(spec_unique_names(rows.push(r))) by {
        assert(forall|i: int| 0 <= i < rows.len() ==> rows.push(r)[i] == rows[i]);
        assert(rows.push(r)[rows.len() as int] == r);
    }
}

impl View for Clients {
    type V = Map<Seq<char>, (IpAddress, Seq<char>)>;

    closed spec fn view(&self) -> Map<Seq<char>, (IpAddress, Seq<char>)> {
        spec_map_of(self.rows@)
    }
}

impl Clients {
    pub closed spec fn wf(&self) -> bool {
        spec_unique_names(self.rows@)
    }

    pub fn new() -> (r: Clients)
        ensures
            r@ == Map::<Seq<char>, (IpAddress, Seq<char>)>::empty(),
            r.wf(),
    {
        Clients { rows: Vec::new() }
    }

    fn find_row(&self, name: &String) -> (r: Option<usize>)
        ensures
            match r {
                Some(i) => i < self.rows@.len() && self.rows@[i as int].name@ == name@,
                None => forall|i: int|
                    0 <= i < self.rows@.len() ==> spec_client_key(#[trigger] self.rows@[i])
                        != name@,
            },
    {
        let mut i: usize = 0;
        while i < self.rows.len()
            invariant
                i <= self.rows@.len(),
                forall|j: int| 0 <= j < i ==> spec_client_key(#[trigger] self.rows@[j]) != name@,
            decreases self.rows@.len() - i,
        {
            if self.rows[i].name == *name {
                return Some(i);
            }
            i += 1;
        }
        None
    }

    /// The recorded address and hardware address of a client, if any.
    pub fn lookup(&self, name: &String) -> (r: Option<(IpAddress, String)>)
        requires
            self.wf(),
        ensures
            match r {
                Some(v) => self@.contains_key(name@) && self@[name@] == (v.0, v.1@),
                None => !self@.contains_key(name@),
            },
    {
        proof {
            lemma_map_of_props(self.rows@);
        }
        match self.find_row(name) {
            Some(i) => {
                proof {
                    assert(spec_client_key(self.rows@[i as int]) == name@);
                }
                Some((self.rows[i].ip, self.rows[i].mac.clone()))
            },
            None => None,
        }
    }

    /// The current address of a client, if any is recorded.
    pub fn ip_of(&self, name: &String) -> (r: Option<IpAddress>)
        requires
            self.wf(),
        ensures
            match r {
                Some(ip) => self@.contains_key(name@) && self@[name@].0 == ip,
                None => !self@.contains_key(name@),
            },
    {
        proof {
            lemma_map_of_props(self.rows@);
        }
        match self.find_row(name) {
            Some(i) => {
                proof {
                    assert(spec_client_key(self.rows@[i as int]) == name@);
                }
                Some(self.rows[i].ip)
            },
            None => None,
        }
    }

    /// Records a client observation: inserts the client, or updates its
    /// address and hardware address when the name is already present.
    pub fn log_client(&mut self, name: String, ip: IpAddress, mac: String)
        requires
            old(self).wf(),
        ensures
            final(self).wf(),
            final(self)@ == old(self)@.insert(name@, (ip, mac@)),
    {
        match self.find_row(&name) {
            Some(i) => {
                let row = ClientRecord { name, ip, mac };
                proof {
                    lemma_map_of_update(self.rows@, i as int, row);
                }
                self.rows.set(i, row);
            },
            None => {
                let row = ClientRecord { name, ip, mac };
                proof {
                    lemma_map_of_push(self.rows@, row);
                }
                self.rows.push(row);
            },
        }
    }
}

} // verus!
