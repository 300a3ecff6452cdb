use vstd::prelude::*;

use crate::domain::DomainName;
use crate::domain::spec_is_ancestor_of;
use crate::net::IpAddress;

verus! {

/// One row of the known-domain history: a name, when it was last queried,
/// and by whom.
pub struct KnownDomain {
    pub name: DomainName,
    pub last_seen: i64,
    pub last_client: IpAddress,
}

/// The most specific name among `known` that the walk from `d` toward the
/// root reaches: `d` itself if it is known, else the nearest known
/// ancestor. The walk stops at the root without ever matching it as an
/// ancestor.
pub open spec fn spec_most_specific_known(
    known: Set<Seq<Seq<u8>>>,
    d: Seq<Seq<u8>>,
) -> Option<Seq<Seq<u8>>>
    decreases d.len(),
{
    if d.len() == 0 {
        None
    } else if known.contains(d) {
        Some(d)
    } else {
        spec_most_specific_known(known, d.drop_first())
    }
}

/// The name that logging `d` writes: the most specific known name on the
/// walk from `d`, or `d` itself when the walk finds nothing.
pub open spec fn spec_log_target(known: Set<Seq<Seq<u8>>>, d: Seq<Seq<u8>>) -> Seq<Seq<u8>> {
    match spec_most_specific_known(known, d) {
        Some(a) => a,
        None => d,
    }
}

/// The known-domain history. Its view maps each known name to its
/// last-seen time and last querying client.
pub struct KnownDomains {
    rows: Vec<KnownDomain>,
}

pub open spec fn spec_known_row_key(r: KnownDomain) -> Seq<Seq<u8>> {
    r.name@
}

spec fn spec_map_of(rows: Seq<KnownDomain>) -> Map<Seq<Seq<u8>>, (i64, IpAddress)>
    decreases rows.len(),
{
    if rows.len() == 0 {
        Map::empty()
    } else {
        spec_map_of(rows.drop_last()).insert(
            rows.last().name@,
            (rows.last().last_seen, rows.last().last_client),
        )
    }
}

spec fn spec_unique_names(rows: Seq<KnownDomain>) -> bool {
    forall|i: int, j: int|
        0 <= i < j < rows.len() ==> spec_known_row_key(#[trigger] rows[i]) != spec_known_row_key(
            #[trigger] rows[j],
        )
}

proof fn lemma_map_of_props(rows: Seq<KnownDomain>)
    ensures
        forall|k: Seq<Seq<u8>>|
            #[trigger] spec_map_of(rows).contains_key(k) <==> exists|i: int|
                0 <= i < rows.len() && #[trigger] spec_known_row_key(rows[i]) == k,
        spec_unique_names(rows) ==> forall|i: int|
            0 <= i < rows.len() ==> spec_map_of(rows)[spec_known_row_key(#[trigger] rows[i])] == (
            rows[i].last_seen,
            rows[i].last_client,
            ),
    decreases rows.len(),
{
    if rows.len() > 0 {
        let inner = rows.drop_last();
        lemma_map_of_props(inner);
        assert(forall|i: int| 0 <= i < inner.len() ==> #[trigger] rows[i] == inner[i]);
        assert forall|k: Seq<Seq<u8>>| #[trigger]
            spec_map_of(rows).contains_key(k) implies exists|i: int|
            0 <= i < rows.len() && #[trigger] spec_known_row_key(rows[i]) == k by {
            if k == rows.last().name@ {
                assert(spec_known_row_key(rows[rows.len() - 1]) == k);
            } else {
                assert(spec_map_of(inner).contains_key(k));
                let i = choose|i: int|
                    0 <= i < inner.len() && #[trigger] spec_known_row_key(inner[i]) == k;
                assert(spec_known_row_key(rows[i]) == k);
            }
        }
        assert forall|k: Seq<Seq<u8>>|
            (exists|i: int| 0 <= i < rows.len() && #[trigger] spec_known_row_key(rows[i]) == k)
            implies #[trigger] spec_map_of(rows).contains_key(k) by {
            let i = choose|i: int|
                0 <= i < rows.len() && #[trigger] spec_known_row_key(rows[i]) == k;
            if i < rows.len() - 1 {
                assert(spec_known_row_key(inner[i]) == k);
                assert(spec_map_of(inner).contains_key(k));
            }
        }
        if spec_unique_names(rows) {
            assert(spec_unique_names(inner));
            assert forall|i: int| 0 <= i < rows.len() implies spec_map_of(rows)[spec_known_row_key(
                #[trigger] rows[i],
            )] == (rows[i].last_seen, rows[i].last_client) by {
                if i < rows.len() - 1 {
                    assert(spec_known_row_key(inner[i]) == rows[i].name@);
                    assert(rows[i].name@ != rows.last().name@);
                    assert(spec_map_of(inner)[spec_known_row_key(inner[i])] == (
                        inner[i].last_seen,
                        inner[i].last_client,
                    ));
                }
            }
        }
    }
}

proof fn lemma_map_of_update(rows: Seq<KnownDomain>, i: int, r: KnownDomain)
    requires
        spec_unique_names(rows),
        0 <= i < rows.len(),
        r.name@ == rows[i].name@,
    ensures
        spec_map_of(rows.update(i, r)) == spec_map_of(rows).insert(
            r.name@,
            (r.last_seen, r.last_client),
        ),
        spec_unique_names(rows.update(i, r)),
    decreases rows.len(),
{
    let updated = rows.update(i, r);
    assert(spec_unique_names(updated)) by {
        assert(forall|j: int| 0 <= j < rows.len() && j != i ==> updated[j] == rows[j]);
        assert(updated[i] == r);
    }
    if i == rows.len() - 1 {
        assert(updated.drop_last() =~= rows.drop_last());
        assert(updated.last() == r);
        assert(spec_map_of(updated) == spec_map_of(rows.drop_last()).insert(
            r.name@,
            (r.last_seen, r.last_client),
        ));
        assert(spec_map_of(rows).insert(r.name@, (r.last_seen, r.last_client))
            =~= spec_map_of(rows.drop_last()).insert(r.name@, (r.last_seen, r.last_client)));
    } else {
        assert(updated.drop_last() =~= rows.drop_last().update(i, r));
        assert(spec_unique_names(rows.drop_last()));
        assert(rows.drop_last()[i] == rows[i]);
        lemma_map_of_update(rows.drop_last(), i, r);
        assert(updated.last() == rows.last());
        // the two inserted keys differ, so the inserts commute
        assert(r.name@ != rows.last().name@);
        assert(spec_map_of(updated) =~= spec_map_of(rows).insert(
            r.name@,
            (r.last_seen, r.last_client),
        ));
    }
}

proof fn lemma_map_of_push(rows: Seq<KnownDomain>, r: KnownDomain)
    requires
        spec_unique_names(rows),
        forall|i: int| 0 <= i < rows.len() ==> spec_known_row_key(#[trigger] rows[i]) != r.name@,
    ensures
        spec_map_of(rows.push(r)) == spec_map_of(rows).insert(r.name@, (r.last_seen, r.last_client)),
        spec_unique_names(rows.push(r)),
{
    assert(rows.push(r).drop_last() =~= rows);
    assert(rows.push(r).last() == r);
    assert(spec_unique_names(rows.push(r))) by {
        assert(forall|i: int| 0 <= i < rows.len() ==> rows.push(r)[i] == rows[i]);
        assert(rows.push(r)[rows.len() as int] == r);
    }
}

impl View for KnownDomains {
    type V = Map<Seq<Seq<u8>>, (i64, IpAddress)>;

    closed spec fn view(&self) -> Map<Seq<Seq<u8>>, (i64, IpAddress)> {
        spec_map_of(self.rows@)
    }
}

impl KnownDomains {
    pub closed spec fn wf(&self) -> bool {
        spec_unique_names(self.rows@)
    }

    pub fn new() -> (r: KnownDomains)
        ensures
            r@ == Map::<Seq<Seq<u8>>, (i64, IpAddress)>::empty(),
            r.wf(),
    {
        KnownDomains { rows: Vec::new() }
    }

    fn find_row(&self, name: &DomainName) -> (r: Option<usize>)
        ensures
            match r {
                Some(i) => i < self.rows@.len() && self.rows@[i as int].name@ == name@,
                None => forall|i: int|
                    0 <= i < self.rows@.len() ==> spec_known_row_key(#[trigger] self.rows@[i])
                        != name@,
            },
    {
        let mut i: usize = 0;
        while i < self.rows.len()
            invariant
                i <= self.rows@.len(),
                forall|j: int| 0 <= j < i ==> spec_known_row_key(#[trigger] self.rows@[j])
                    != name@,
            decreases self.rows@.len() - i,
        {
            if self.rows[i].name.same_name(name) {
                return Some(i);
            }
            i += 1;
        }
        None
    }

    /// Whether this exact name is known.
    pub fn contains_name(&self, name: &DomainName) -> (r: bool)
        ensures
            r == self@.contains_key(name@),
    {
        proof {
            lemma_map_of_props(self.rows@);
        }
        match self.find_row(name) {
            Some(i) => {
                proof {
                    assert(spec_known_row_key(self.rows@[i as int]) == name@);
                }
                true
            },
            None => false,
        }
    }

    /// What is recorded for a name, if anything.
    pub fn lookup(&self, name: &DomainName) -> (r: Option<(i64, IpAddress)>)
        requires
            self.wf(),
        ensures
            match r {
                Some(v) => self@.contains_key(name@) && self@[name@] == v,
                None => !self@.contains_key(name@),
            },
    {
        proof {
            lemma_map_of_props(self.rows@);
        }
        match self.find_row(name) {
            Some(i) => Some((self.rows[i].last_seen, self.rows[i].last_client)),
            None => None,
        }
    }

    /// The ancestor walk of the query log: starting from the full name,
    /// strip one label at a time and return the first name that is known;
    /// the root terminates the walk without matching.
    pub fn domain_or_parent_exists(&self, domain: &DomainName) -> (r: Option<DomainName>)
        ensures
            match r {
                Some(d) => spec_most_specific_known(self@.dom(), domain@) == Some(d@),
                None => spec_most_specific_known(self@.dom(), domain@) is None,
            },
    {
        let mut cur = domain.duplicate();
        while !(cur.label_count() == 0)
            invariant
                spec_most_specific_known(self@.dom(), domain@) == spec_most_specific_known(
                    self@.dom(),
                    cur@,
                ),
            decreases cur@.len(),
        {
            if self.contains_name(&cur) {
                proof {
                    assert(self@.dom().contains(cur@));
                }
                return Some(cur);
            }
            proof {
                assert(!self@.dom().contains(cur@));
            }
            cur = cur.parent();
        }
        None
    }

    /// Records one observation of `domain`: the most specific known name on
    /// the walk toward the root absorbs it, and only a wholly unknown name
    /// is inserted as itself. Returns the name that was written.
    pub fn log_domain(&mut self, domain: &DomainName, ts: i64, client: IpAddress) -> (logged:
        DomainName)
        requires
            old(self).wf(),
        ensures
            final(self).wf(),
            logged@ == spec_log_target(old(self)@.dom(), domain@),
            final(self)@ == old(self)@.insert(logged@, (ts, client)),
    {
        proof {
            lemma_map_of_props(self.rows@);
        }
        let target = match self.domain_or_parent_exists(domain) {
            Some(a) => a,
            None => domain.duplicate(),
        };
        let logged = target.duplicate();
        let row = KnownDomain { name: target, last_seen: ts, last_client: client };
        match self.find_row(&logged) {
            Some(i) => {
                proof {
                    lemma_map_of_update(self.rows@, i as int, row);
                }
                self.rows.set(i, row);
            },
            None => {
                proof {
                    lemma_map_of_push(self.rows@, row);
                }
                self.rows.push(row);
            },
        }
        logged
    }
}

/// When a queried name is unknown but one of its ancestors is known,
/// logging it touches a known ancestor and never inserts the queried name:
/// the written name is the most specific known ancestor, so the set of
/// known names does not grow.
pub proof fn lemma_known_ancestor_absorbs(
    known: Set<Seq<Seq<u8>>>,
    child: Seq<Seq<u8>>,
    anc: Seq<Seq<u8>>,
)
    requires
        !known.contains(child),
        spec_is_ancestor_of(anc, child),
        anc.len() > 0,
        known.contains(anc),
    ensures
        spec_most_specific_known(known, child) is Some,
        spec_log_target(known, child) != child,
        known.contains(spec_log_target(known, child)),
        spec_is_ancestor_of(spec_log_target(known, child), child),
        anc.len() <= spec_log_target(known, child).len(),
        known.insert(spec_log_target(known, child)) =~= known,
    decreases child.len(),
{
    let rest = child.drop_first();
    assert(anc.len() < child.len());
    assert(anc.len() <= rest.len());
    if known.contains(rest) {
        assert(rest.len() > 0);
        assert(spec_most_specific_known(known, rest) == Some(rest));
        assert(spec_most_specific_known(known, child) == spec_most_specific_known(known, rest));
        assert(spec_is_ancestor_of(rest, child)) by {
            assert(rest =~= child.subrange(1, child.len() as int));
        }
        assert(anc.len() <= rest.len());
    } else {
        if anc.len() == rest.len() {
            assert(anc =~= rest);
            assert(false);
        }
        assert(spec_is_ancestor_of(anc, rest)) by {
            assert(anc =~= rest.subrange(rest.len() - anc.len(), rest.len() as int));
        }
        lemma_known_ancestor_absorbs(known, rest, anc);
        let t = spec_log_target(known, rest);
        assert(spec_log_target(known, child) == t);
        assert(spec_is_ancestor_of(t, child)) by {
            assert(t =~= child.subrange(child.len() - t.len(), child.len() as int));
        }
    }
}

/// When the queried name is unknown and a known ancestor is the most
/// specific known one, logging the queried name writes exactly that
/// ancestor: its last-seen and last-client fields take the observation,
/// and the queried name itself is never inserted.
pub proof fn lemma_most_specific_ancestor_updated(
    known: Set<Seq<Seq<u8>>>,
    child: Seq<Seq<u8>>,
    anc: Seq<Seq<u8>>,
)
    requires
        !known.contains(child),
        spec_is_ancestor_of(anc, child),
        anc.len() > 0,
        known.contains(anc),
        forall|b: Seq<Seq<u8>>|
            spec_is_ancestor_of(b, child) && #[trigger] known.contains(b) ==> b.len()
                <= anc.len(),
    ensures
        spec_log_target(known, child) == anc,
{
    lemma_known_ancestor_absorbs(known, child, anc);
    let t = spec_log_target(known, child);
    assert(t.len() <= anc.len());
    assert(t.len() == anc.len());
    assert(t =~= child.subrange(child.len() - t.len(), child.len() as int));
    assert(anc =~= child.subrange(child.len() - anc.len(), child.len() as int));
    assert(t =~= anc);
}

} // verus!
