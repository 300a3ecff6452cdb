use vstd::prelude::*;

use crate::net::IpAddress;
use crate::net::IpSet;

verus! {

/// One address record the DNS provider holds for the appliance's domain:
/// the provider's record identifier and the address it carries.
pub struct DnsRecordEntry {
    pub id: String,
    pub addr: IpAddress,
}

pub ghost struct DnsRecordEntryV {
    pub id: Seq<char>,
    pub addr: IpAddress,
}

impl View for DnsRecordEntry {
    type V = DnsRecordEntryV;

    open spec fn view(&self) -> DnsRecordEntryV {
        DnsRecordEntryV { id: self.id@, addr: self.addr }
    }
}

impl DeepView for DnsRecordEntry {
    type V = DnsRecordEntryV;

    open spec fn deep_view(&self) -> DnsRecordEntryV {
        self.view()
    }
}

/// Some record of the listing carries this address.
pub open spec fn spec_actual_has_addr(actual: Seq<DnsRecordEntryV>, a: IpAddress) -> bool {
    exists|j: int| 0 <= j < actual.len() && (#[trigger] actual[j]).addr == a
}

/// What a correct reconciliation plan holds: one creation for each
/// address that is desired but absent from the provider, and one deletion
/// for each provider record whose address is no longer desired — nothing
/// else, and nothing twice.
pub open spec fn spec_reconcile_plan_ok(
    creates: Seq<IpAddress>,
    deletes: Seq<Seq<char>>,
    desired: Set<IpAddress>,
    actual: Seq<DnsRecordEntryV>,
) -> bool {
    &&& creates.no_duplicates()
    &&& forall|a: IpAddress| #[trigger]
        creates.contains(a) <==> (desired.contains(a) && !spec_actual_has_addr(actual, a))
    &&& deletes == actual.filter(|e: DnsRecordEntryV| !desired.contains(e.addr)).map_values(
        |e: DnsRecordEntryV| e.id,
    )
}

/// The create and delete calls one reconciliation pass will issue.
pub struct ReconcilePlan {
    pub creates: Vec<IpAddress>,
    pub deletes: Vec<String>,
}

/// Diffs desired addresses against the provider's records and plans the
/// calls that reconcile them.
pub struct CloudflareAService {
}

fn actual_contains_addr(actual: &Vec<DnsRecordEntry>, a: IpAddress) -> (r: bool)
    ensures
        r == spec_actual_has_addr(actual.deep_view(), a),
{
    let mut j: usize = 0;
    while j < actual.len()
        invariant
            j <= actual@.len(),
            actual.deep_view().len() == actual@.len(),
            forall|k: int| 0 <= k < j ==> (#[trigger] actual.deep_view()[k]).addr != a,
        decreases actual@.len() - j,
    {
        proof {
            assert(actual.deep_view()[j as int] == actual@[j as int]@);
        }
        if actual[j].addr == a {
            return true;
        }
        j += 1;
    }
    false
}

impl CloudflareAService {
    pub fn create() -> (r: CloudflareAService) {
        CloudflareAService {  }
    }

    /// The symmetric difference between the addresses the appliance wants
    /// published and the records the provider holds, as the calls that
    /// close it. An address both sides hold costs nothing; a plan over
    /// equal sets is empty.
    pub fn update_dns_plan(desired: &IpSet, actual: &Vec<DnsRecordEntry>) -> (r: ReconcilePlan)
        requires
            desired.wf(),
        ensures
            spec_reconcile_plan_ok(r.creates@, r.deletes.deep_view(), desired@, actual.deep_view()),
    {
        let members = desired.members();
        let mut creates: Vec<IpAddress> = Vec::new();
        let mut i: usize = 0;
        while i < members.len()
            invariant
                i <= members@.len(),
                members@.no_duplicates(),
                members@.to_set() == desired@,
                creates@.no_duplicates(),
                forall|a: IpAddress| #[trigger]
                    creates@.contains(a) <==> ((exists|k: int|
                        0 <= k < i && members@[k] == a) && !spec_actual_has_addr(
                        actual.deep_view(),
                        a,
                    )),
                forall|a: IpAddress| #[trigger]
                    creates@.contains(a) ==> members@.contains(a),
            decreases members@.len() - i,
        {
            let a = members[i];
            let ghost prev = creates@;
            if !actual_contains_addr(actual, a) {
                proof {
                    if creates@.contains(a) {
                        let k = choose|k: int| 0 <= k < i && members@[k] == a;
                        assert(members@[k] == members@[i as int]);
                        assert(false);
                    }
                    assert(creates@.push(a).drop_last() =~= creates@);
                }
                creates.push(a);
                proof {
                    assert forall|b: IpAddress| #[trigger] creates@.contains(b) implies ((exists|
                        k: int,
                    |
                        0 <= k < i + 1 && members@[k] == b) && !spec_actual_has_addr(
                        actual.deep_view(),
                        b,
                    )) by {
                        let idx = choose|idx: int|
                            0 <= idx < creates@.len() && creates@[idx] == b;
                        if idx == prev.len() {
                            assert(b == a);
                            assert(members@[i as int] == b);
                        } else {
                            assert(prev[idx] == b);
                            assert(prev.contains(b));
                            let k = choose|k: int| 0 <= k < i && members@[k] == b;
                        }
                    }
                    assert forall|b: IpAddress|
                        ((exists|k: int| 0 <= k < i + 1 && members@[k] == b)
                            && !spec_actual_has_addr(actual.deep_view(), b)) implies #[trigger]
                        creates@.contains(b) by {
                        let k = choose|k: int| 0 <= k < i + 1 && members@[k] == b;
                        if k == i {
                            assert(creates@[prev.len() as int] == b);
                        } else {
                            assert(prev.contains(b));
                            let idx = choose|idx: int|
                                0 <= idx < prev.len() && prev[idx] == b;
                            assert(creates@[idx] == b);
                        }
                    }
                }
            } else {
                proof {
                    assert forall|b: IpAddress| #[trigger] creates@.contains(b) implies ((exists|
                        k: int,
                    |
                        0 <= k < i + 1 && members@[k] == b) && !spec_actual_has_addr(
                        actual.deep_view(),
                        b,
                    )) by {
                        let k = choose|k: int| 0 <= k < i && members@[k] == b;
                    }
                    assert forall|b: IpAddress|
                        ((exists|k: int| 0 <= k < i + 1 && members@[k] == b)
                            && !spec_actual_has_addr(actual.deep_view(), b)) implies #[trigger]
                        creates@.contains(b) by {
                        let k = choose|k: int| 0 <= k < i + 1 && members@[k] == b;
                        if k == i {
                            assert(members@[i as int] == b);
                            assert(spec_actual_has_addr(actual.deep_view(), b));
                            assert(false);
                        }
                    }
                }
            }
            i += 1;
        }
        let ghost pred = |e: DnsRecordEntryV| !desired@.contains(e.addr);
        let mut deletes: Vec<String> = Vec::new();
        let mut j: usize = 0;
        while j < actual.len()
            invariant
                j <= actual@.len(),
                actual.deep_view().len() == actual@.len(),
                pred == (|e: DnsRecordEntryV| !desired@.contains(e.addr)),
                deletes.deep_view() == actual.deep_view().take(j as int).filter(pred).map_values(
                    |e: DnsRecordEntryV| e.id,
                ),
            decreases actual@.len() - j,
        {
            proof {
                assert(actual.deep_view()[j as int] == actual@[j as int]@);
                reveal(Seq::filter);
                let prefix = actual.deep_view().take(j as int);
                let next = actual.deep_view().take(j + 1 as int);
                assert(next.drop_last() =~= prefix);
                assert(next.last() == actual.deep_view()[j as int]);
            }
            let hit = !desired.contains(&actual[j].addr);
            if hit {
                let ghost prev = deletes.deep_view();
                deletes.push(actual[j].id.clone());
                proof {
                    assert(deletes.deep_view() =~~= prev.push(actual@[j as int].id@));
                    let prefix = actual.deep_view().take(j as int);
                    let next = actual.deep_view().take(j + 1 as int);
                    assert(next.filter(pred) == prefix.filter(pred).push(
                        actual.deep_view()[j as int],
                    ));
                    assert(next.filter(pred).map_values(|e: DnsRecordEntryV| e.id) =~= prefix.filter(
                        pred,
                    ).map_values(|e: DnsRecordEntryV| e.id).push(actual.deep_view()[j as int].id));
                }
            } else {
                proof {
                    let prefix = actual.deep_view().take(j as int);
                    let next = actual.deep_view().take(j + 1 as int);
                    assert(next.filter(pred) == prefix.filter(pred));
                }
            }
            j += 1;
        }
        proof {
            assert(actual.deep_view().take(actual@.len() as int) =~= actual.deep_view());
            assert forall|a: IpAddress| #[trigger] creates@.contains(a) implies (desired@.contains(
                a,
            ) && !spec_actual_has_addr(actual.deep_view(), a)) by {
                let k = choose|k: int| 0 <= k < members@.len() && members@[k] == a;
                assert(members@.contains(a));
            }
            assert forall|a: IpAddress|
                desired@.contains(a) && !spec_actual_has_addr(actual.deep_view(), a) implies
                #[trigger] creates@.contains(a) by {
                assert(members@.to_set().contains(a));
                let k = choose|k: int| 0 <= k < members@.len() && members@[k] == a;
            }
        }
        ReconcilePlan { creates, deletes }
    }
}

/// When the desired and actual address sets already agree, the plan is
/// empty: the reconciler issues no call at all.
pub proof fn lemma_reconcile_zero_calls(
    creates: Seq<IpAddress>,
    deletes: Seq<Seq<char>>,
    desired: Set<IpAddress>,
    actual: Seq<DnsRecordEntryV>,
)
    requires
        spec_reconcile_plan_ok(creates, deletes, desired, actual),
        forall|a: IpAddress| #[trigger] desired.contains(a) <==> spec_actual_has_addr(actual, a),
    ensures
        creates.len() == 0,
        deletes.len() == 0,
{
    if creates.len() > 0 {
        assert(creates.contains(creates[0]));
        assert(false);
    }
    let pred = |e: DnsRecordEntryV| !desired.contains(e.addr);
    let filtered = actual.filter(pred);
    if filtered.len() > 0 {
        actual.lemma_filter_pred(pred, 0);
        let e = filtered[0];
        assert(pred(e));
        lemma_filter_elements_come_from(actual, pred, 0);
        assert(false);
    }
    assert(deletes.len() == filtered.map_values(|e: DnsRecordEntryV| e.id).len());
}

/// Every element a filter keeps occurs in the sequence it was taken from.
proof fn lemma_filter_elements_come_from(
    actual: Seq<DnsRecordEntryV>,
    pred: spec_fn(DnsRecordEntryV) -> bool,
    i: int,
)
    requires
        0 <= i < actual.filter(pred).len(),
    ensures
        exists|j: int| 0 <= j < actual.len() && #[trigger] actual[j] == actual.filter(pred)[i],
    decreases actual.len(),
{
    reveal(Seq::filter);
    if actual.len() > 0 {
        let inner = actual.drop_last();
        if pred(actual.last()) && i == actual.filter(pred).len() - 1 {
            assert(actual[actual.len() - 1] == actual.filter(pred)[i]);
        } else {
            lemma_filter_elements_come_from(inner, pred, i);
            let j = choose|j: int|
                0 <= j < inner.len() && #[trigger] inner[j] == inner.filter(pred)[i];
            assert(actual[j] == actual.filter(pred)[i]);
        }
    }
}

} // verus!
