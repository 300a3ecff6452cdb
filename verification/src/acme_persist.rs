use vstd::prelude::*;

use crate::text::copy_bytes;

verus! {

/// One persisted ACME artifact: an opaque key naming an account or order
/// item, and the bytes stored under it.
pub struct AcmePersistEntry {
    pub acme_key: String,
    pub acme_value: Vec<u8>,
}

pub open spec fn spec_persist_key(r: AcmePersistEntry) -> Seq<char> {
    r.acme_key@
}

/// The durable key-value backing the ACME client's persistence contract:
/// writes upsert, nothing is ever deleted. Its view maps each key to the
/// bytes last stored under it.
pub struct AcmePersistKey {
    rows: Vec<AcmePersistEntry>,
}

spec fn spec_map_of(rows: Seq<AcmePersistEntry>) -> Map<Seq<char>, Seq<u8>>
    decreases rows.len(),
{
    if rows.len() == 0 {
        Map::empty()
    } else {
        spec_map_of(rows.drop_last()).insert(rows.last().acme_key@, rows.last().acme_value@)
    }
}

spec fn spec_unique_keys(rows: Seq<AcmePersistEntry>) -> bool {
    forall|i: int, j: int|
        0 <= i < j < rows.len() ==> spec_persist_key(#[trigger] rows[i]) != spec_persist_key(
            #[trigger] rows[j],
        )
}

proof fn lemma_map_of_props(rows: Seq<AcmePersistEntry>)
    ensures
        forall|k: Seq<char>|
            #[trigger] spec_map_of(rows).contains_key(k) <==> exists|i: int|
                0 <= i < rows.len() && #[trigger] spec_persist_key(rows[i]) == k,
        spec_unique_keys(rows) ==> forall|i: int|
            0 <= i < rows.len() ==> spec_map_of(rows)[spec_persist_key(#[trigger] rows[i])]
                == rows[i].acme_value@,
    decreases rows.len(),
{
    if rows.len() > 0 {
        let inner = rows.drop_last();
        lemma_map_of_props(inner);
        assert(forall|i: int| 0 <= i < inner.len() ==> #[trigger] rows[i] == inner[i]);
        assert forall|k: Seq<char>| #[trigger]
            spec_map_of(rows).contains_key(k) implies exists|i: int|
            0 <= i < rows.len() && #[trigger] spec_persist_key(rows[i]) == k by {
            if k == rows.last().acme_key@ {
                assert(spec_persist_key(rows[rows.len() - 1]) == k);
            } else {
                assert(spec_map_of(inner).contains_key(k));
                let i = choose|i: int|
                    0 <= i < inner.len() && #[trigger] spec_persist_key(inner[i]) == k;
                assert(spec_persist_key(rows[i]) == k);
            }
        }
        assert forall|k: Seq<char>|
            (exists|i: int| 0 <= i < rows.len() && #[trigger] spec_persist_key(rows[i]) == k)
            implies #[trigger] spec_map_of(rows).contains_key(k) by {
            let i = choose|i: int|
                0 <= i < rows.len() && #[trigger] spec_persist_key(rows[i]) == k;
            if i < rows.len() - 1 {
                assert(spec_persist_key(inner[i]) == k);
                assert(spec_map_of(inner).contains_key(k));
            }
        }
        if spec_unique_keys(rows) {
            assert(spec_unique_keys(inner));
            assert forall|i: int| 0 <= i < rows.len() implies spec_map_of(rows)[spec_persist_key(
                #[trigger] rows[i],
            )] == rows[i].acme_value@ by {
                if i < rows.len() - 1 {
                    assert(spec_persist_key(inner[i]) == rows[i].acme_key@);
                    assert(rows[i].acme_key@ != rows.last().acme_key@);
                    assert(spec_map_of(inner)[spec_persist_key(inner[i])]
                        == inner[i].acme_value@);
                }
            }
        }
    }
}

proof fn lemma_map_of_update(rows: Seq<AcmePersistEntry>, i: int, r: AcmePersistEntry)
    requires
        spec_unique_keys(rows),
        0 <= i < rows.len(),
        r.acme_key@ == rows[i].acme_key@,
    ensures
        spec_map_of(rows.update(i, r)) == spec_map_of(rows).insert(r.acme_key@, r.acme_value@),
        spec_unique_keys(rows.update(i, r)),
    decreases rows.len(),
{
    let updated = rows.update(i, r);
    assert(spec_unique_keys(updated)) by {
        assert(forall|j: int| 0 <= j < rows.len() && j != i ==> updated[j] == rows[j]);
        assert(updated[i] == r);
    }
    if i == rows.len() - 1 {
        assert(updated.drop_last() =~= rows.drop_last());
        assert(updated.last() == r);
        assert(spec_map_of(rows).insert(r.acme_key@, r.acme_value@) =~= spec_map_of(
            rows.drop_last(),
        ).insert(r.acme_key@, r.acme_value@));
    } else {
        assert(updated.drop_last() =~= rows.drop_last().update(i, r));
        assert(spec_unique_keys(rows.drop_last()));
        assert(rows.drop_last()[i] == rows[i]);
        lemma_map_of_update(rows.drop_last(), i, r);
        assert(updated.last() == rows.last());
        assert(r.acme_key@ != rows.last().acme_key@);
        assert(spec_map_of(updated) =~= spec_map_of(rows).insert(r.acme_key@, r.acme_value@));
    }
}

proof fn lemma_map_of_push(rows: Seq<AcmePersistEntry>, r: AcmePersistEntry)
    requires
        spec_unique_keys(rows),
        forall|i: int|
            0 <= i < rows.len() ==> spec_persist_key(#[trigger] rows[i]) != r.acme_key@,
    ensures
        spec_map_of(rows.push(r)) == spec_map_of(rows).insert(r.acme_key@, r.acme_value@),
        spec_unique_keys(rows.push(r)),
{
    assert(rows.push(r).drop_last() =~= rows);
    assert(rows.push(r).last() == r);
    assert(spec_unique_keys(rows.push(r))) by {
        assert(forall|i: int| 0 <= i < rows.len() ==> rows.push(r)[i] == rows[i]);
        assert(rows.push(r)[rows.len() as int] == r);
    }
}

impl View for AcmePersistKey {
    type V = Map<Seq<char>, Seq<u8>>;

    closed spec fn view(&self) -> Map<Seq<char>, Seq<u8>> {
        spec_map_of(self.rows@)
    }
}

impl AcmePersistKey {
    pub closed spec fn wf(&self) -> bool {
        spec_unique_keys(self.rows@)
    }

    pub fn create() -> (r: AcmePersistKey)
        ensures
            r@ == Map::<Seq<char>, Seq<u8>>::empty(),
            r.wf(),
    {
        AcmePersistKey { rows: Vec::new() }
    }

    fn find_row(&self, key: &String) -> (r: Option<usize>)
        ensures
            match r {
                Some(i) => i < self.rows@.len() && self.rows@[i as int].acme_key@ == key@,
                None => forall|i: int|
                    0 <= i < self.rows@.len() ==> spec_persist_key(#[trigger] self.rows@[i])
                        != key@,
            },
    {
        let mut i: usize = 0;
        while i < self.rows.len()
            invariant
                i <= self.rows@.len(),
                forall|j: int|
                    0 <= j < i ==> spec_persist_key(#[trigger] self.rows@[j]) != key@,
            decreases self.rows@.len() - i,
        {
            if self.rows[i].acme_key == *key {
                return Some(i);
            }
            i += 1;
        }
        None
    }

    /// Stores bytes under a key, replacing whatever was there.
    pub fn put_key_value(&mut self, key: String, value: Vec<u8>)
        requires
            old(self).wf(),
        ensures
            final(self).wf(),
            final(self)@ == old(self)@.insert(key@, value@),
    {
        match self.find_row(&key) {
            Some(i) => {
                let row = AcmePersistEntry { acme_key: key, acme_value: value };
                proof {
                    lemma_map_of_update(self.rows@, i as int, row);
                }
                self.rows.set(i, row);
            },
            None => {
                let row = AcmePersistEntry { acme_key: key, acme_value: value };
                proof {
                    lemma_map_of_push(self.rows@, row);
                }
                self.rows.push(row);
            },
        }
    }

    /// The bytes last stored under a key, if any.
    pub fn get_key_value(&self, key: &String) -> (r: Option<Vec<u8>>)
        requires
            self.wf(),
        ensures
            match r {
                Some(v) => self@.contains_key(key@) && self@[key@] == v@,
                None => !self@.contains_key(key@),
            },
    {
        proof {
            lemma_map_of_props(self.rows@);
        }
        match self.find_row(key) {
            Some(i) => {
                proof {
                    assert(spec_persist_key(self.rows@[i as int]) == key@);
                }
                Some(copy_bytes(self.rows[i].acme_value.as_slice()))
            },
            None => None,
        }
    }
}

} // verus!
