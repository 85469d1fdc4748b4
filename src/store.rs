use vstd::prelude::*;

use crate::error::StoreError;

verus! {

/// The contents of a store: each key maps to the value it was first written with.
pub type Table = Map<Seq<char>, Seq<char>>;

/// The table after `put(k, v)`: unchanged when `k` is present, else extended.
pub open spec fn put_table(m: Table, k: Seq<char>, v: Seq<char>) -> Table {
    if m.contains_key(k) {
        m
    } else {
        m.insert(k, v)
    }
}

/// What `get(k)` finds in the table.
pub open spec fn lookup(m: Table, k: Seq<char>) -> Option<Seq<char>> {
    if m.contains_key(k) {
        Some(m[k])
    } else {
        None
    }
}

/// The table after a series of puts, applied in order.
pub open spec fn apply_puts(m: Table, writes: Seq<(Seq<char>, Seq<char>)>) -> Table
    decreases writes.len(),
{
    if writes.len() == 0 {
        m
    } else {
        put_table(apply_puts(m, writes.drop_last()), writes.last().0, writes.last().1)
    }
}

/// Puts of the values `vs`, in order, all under the key `k`: the resulting
/// table and how many of them succeeded.
pub open spec fn put_race(m: Table, k: Seq<char>, vs: Seq<Seq<char>>) -> (Table, nat)
    decreases vs.len(),
{
    if vs.len() == 0 {
        (m, 0)
    } else {
        let (m1, n) = put_race(m, k, vs.drop_last());
        let won: nat = if m1.contains_key(k) { 0 } else { 1 };
        (put_table(m1, k, vs.last()), n + won)
    }
}

/// Once a put of a key has succeeded, every later put of that key fails and
/// leaves the first value in place.
pub proof fn lemma_put_unique(m: Table, k: Seq<char>, v1: Seq<char>, v2: Seq<char>)
    requires
        !m.contains_key(k),
    ensures
        put_table(m, k, v1).contains_key(k),
        put_table(put_table(m, k, v1), k, v2) == put_table(m, k, v1),
        lookup(put_table(put_table(m, k, v1), k, v2), k) == Some(v1),
{
}

/// A put of an unused key followed by a get of it returns the value written.
pub proof fn lemma_round_trip(m: Table, k: Seq<char>, v: Seq<char>)
    requires
        !m.contains_key(k),
    ensures
        lookup(put_table(m, k, v), k) == Some(v),
{
}

/// A key that no put ever wrote is not found.
pub proof fn lemma_never_written(writes: Seq<(Seq<char>, Seq<char>)>, k: Seq<char>)
    requires
        forall|i: int| 0 <= i < writes.len() ==> (#[trigger] writes[i]).0 != k,
    ensures
        lookup(apply_puts(Map::empty(), writes), k) == None::<Seq<char>>,
    decreases writes.len(),
{
    if writes.len() > 0 {
        let prefix = writes.drop_last();
        assert forall|i: int| 0 <= i < prefix.len() implies (#[trigger] prefix[i]).0 != k by {
            assert(prefix[i] == writes[i]);
        }
        lemma_never_written(prefix, k);
        assert(writes.last() == writes[writes.len() - 1]);
    }
}

/// Of any number of puts of one unused key, exactly one succeeds, the rest
/// fail, and the key keeps the value of the one that succeeded.
pub proof fn lemma_put_race(m: Table, k: Seq<char>, vs: Seq<Seq<char>>)
    requires
        !m.contains_key(k),
        vs.len() >= 1,
    ensures
        put_race(m, k, vs).1 == 1,
        lookup(put_race(m, k, vs).0, k) == Some(vs[0]),
    decreases vs.len(),
{
    let prefix = vs.drop_last();
    if vs.len() > 1 {
        lemma_put_race(m, k, prefix);
        assert(prefix[0] == vs[0]);
    } else {
        assert(put_race(m, k, prefix) == (m, 0nat));
        assert(vs.last() == vs[0]);
    }
}

/// One stored record.
#[derive(Debug)]
pub struct Record {
    pub key: String,
    pub value: String,
}

/// An in-memory table of records with unique keys.
pub struct MemStore {
    records: Vec<Record>,
    table: Ghost<Table>,
}

impl View for MemStore {
    type V = Table;

    closed spec fn view(&self) -> Table {
        self.table@
    }
}

impl MemStore {
    /// The records hold distinct keys, and the table is exactly what they hold.
    pub closed spec fn wf(&self) -> bool {
        &&& forall|i: int, j: int|
            0 <= i < j < self.records@.len() ==> (#[trigger] self.records@[i]).key@
                != (#[trigger] self.records@[j]).key@
        &&& forall|i: int|
            0 <= i < self.records@.len() ==> self.table@.contains_key(
                (#[trigger] self.records@[i]).key@,
            ) && self.table@[self.records@[i].key@] == self.records@[i].value@
        &&& forall|k: Seq<char>|
            #[trigger] self.table@.contains_key(k) ==> exists|i: int|
                0 <= i < self.records@.len() && (#[trigger] self.records@[i]).key@ == k
    }

    pub fn new() -> (s: MemStore)
        ensures
            s.wf(),
            s@ == Table::empty(),
    {
        MemStore { records: Vec::new(), table: Ghost(Map::empty()) }
    }

    /// The position of the record holding `key`, if any.
    fn find(&self, key: &String) -> (r: Option<usize>)
        requires
            self.wf(),
        ensures
            match r {
                Some(i) => i < self.records@.len() && self.records@[i as int].key@ == key@,
                None => !self@.contains_key(key@),
            },
    {
        let mut i: usize = 0;
        while i < self.records.len()
            invariant
                self.wf(),
                i <= self.records@.len(),
                forall|j: int| 0 <= j < i ==> (#[trigger] self.records@[j]).key@ != key@,
            decreases self.records@.len() - i,
        {
            if self.records[i].key == *key {
                return Some(i);
            }
            i = i + 1;
        }
        None
    }

    /// Inserts a new record; fails without change when the key is present.
    pub fn put(&mut self, key: &str, value: &str) -> (r: Result<(), StoreError>)
        requires
            old(self).wf(),
        ensures
            final(self).wf(),
            final(self)@ == put_table(old(self)@, key@, value@),
            r is Ok <==> !old(self)@.contains_key(key@),
            r is Err ==> r->Err_0 is KeyAlreadyExists,
    {
        let k = key.to_owned();
        match self.find(&k) {
            Some(_) => Err(StoreError::KeyAlreadyExists("key already exists".to_owned())),
            None => {
                let ghost old_recs = self.records@;
                self.records.push(Record { key: k, value: value.to_owned() });
                self.table = Ghost(self.table@.insert(key@, value@));
                assert forall|k2: Seq<char>| #[trigger] self.table@.contains_key(k2) implies exists|i: int|
                    0 <= i < self.records@.len() && (#[trigger] self.records@[i]).key@ == k2 by {
                    if k2 != key@ {
                        let i = choose|i: int| 0 <= i < old_recs.len() && (#[trigger] old_recs[i]).key@ == k2;
                        assert(self.records@[i] == old_recs[i]);
                    } else {
                        assert(self.records@[old_recs.len() as int].key@ == k2);
                    }
                }
                Ok(())
            },
        }
    }

    /// The value stored under `key`, or `KeyNotFound`.
    pub fn get(&self, key: &str) -> (r: Result<String, StoreError>)
        requires
            self.wf(),
        ensures
            match r {
                Ok(v) => lookup(self@, key@) == Some(v@),
                Err(e) => lookup(self@, key@) is None && e is KeyNotFound,
            },
    {
        let k = key.to_owned();
        match self.find(&k) {
            Some(i) => Ok(self.records[i].value.clone()),
            None => Err(StoreError::KeyNotFound("Key not found".to_owned())),
        }
    }
}

} // verus!
