//! Snapshots of a key-value store: a store is exported as the list of its
//! entries in ascending key order, and a list of entries is loaded back into a
//! fresh store with "last write wins" for repeated keys.
use cosmwasm_std::{MemoryStorage, Order, Storage};
use vstd::prelude::*;

verus! {

#[verifier::external_type_specification]
#[verifier::external_body]
pub struct ExMemoryStorage(MemoryStorage);

/// The entries that a `MemoryStorage` holds, key to value.
pub uninterp spec fn storage_entries(s: MemoryStorage) -> Map<Seq<u8>, Seq<u8>>;

/// Strict lexicographic order on byte strings, the order of `Vec<u8>` keys.
pub open spec fn bytes_lt(a: Seq<u8>, b: Seq<u8>) -> bool
    decreases a.len(),
{
    if a.len() == 0 {
        b.len() > 0
    } else if b.len() == 0 {
        false
    } else if a[0] != b[0] {
        a[0] < b[0]
    } else {
        bytes_lt(a.drop_first(), b.drop_first())
    }
}

/// The byte strings of a list of owned entries.
pub open spec fn records_of(d: Seq<(Vec<u8>, Vec<u8>)>) -> Seq<(Seq<u8>, Seq<u8>)> {
    Seq::new(d.len(), |i: int| (d[i].0@, d[i].1@))
}

/// Whether every value of the entries is non-empty.
pub open spec fn values_non_empty(d: Seq<(Seq<u8>, Seq<u8>)>) -> bool {
    forall|i: int| 0 <= i < d.len() ==> (#[trigger] d[i]).1.len() > 0
}

/// Whether `d` lists the entries of `m`, each once, in strictly ascending key
/// order.
pub open spec fn is_export_of(d: Seq<(Seq<u8>, Seq<u8>)>, m: Map<Seq<u8>, Seq<u8>>) -> bool {
    &&& forall|i: int, j: int| 0 <= i < j < d.len() ==> bytes_lt(#[trigger] d[i].0, #[trigger] d[j].0)
    &&& forall|i: int| 0 <= i < d.len() ==> m.contains_key((#[trigger] d[i]).0) && m[d[i].0] == d[i].1
    &&& forall|k: Seq<u8>| #[trigger] m.contains_key(k) ==> exists|i: int| 0 <= i < d.len() && (#[trigger] d[i]).0 == k
}

/// The entries of an empty store.
pub open spec fn no_entries() -> Map<Seq<u8>, Seq<u8>> {
    Map::empty()
}

/// `m` after setting each entry of `d` in turn.
pub open spec fn apply_entries(m: Map<Seq<u8>, Seq<u8>>, d: Seq<(Seq<u8>, Seq<u8>)>) -> Map<Seq<u8>, Seq<u8>>
    decreases d.len(),
{
    if d.len() == 0 {
        m
    } else {
        apply_entries(m, d.drop_last()).insert(d.last().0, d.last().1)
    }
}

/// Relies on MemoryStorage::new: an empty store.
#[verifier::external_body]
fn storage_new() -> (r: MemoryStorage)
    ensures
        storage_entries(r) == no_entries(),
{
    MemoryStorage::new()
}

/// Relies on <MemoryStorage as Storage>::set: the value is stored under the key,
/// replacing any earlier one (it panics on an empty value).
#[verifier::external_body]
fn storage_set(s: &mut MemoryStorage, key: &[u8], value: &[u8])
    requires
        value@.len() > 0,
    ensures
        storage_entries(*final(s)) == storage_entries(*old(s)).insert(key@, value@),
{
    s.set(key, value)
}

/// Relies on <MemoryStorage as Storage>::range over all keys in ascending
/// order: every entry once, keys ascending. Values are never empty, since `set`
/// refuses empty ones.
#[verifier::external_body]
fn storage_records(s: &MemoryStorage) -> (r: Vec<(Vec<u8>, Vec<u8>)>)
    ensures
        is_export_of(records_of(r@), storage_entries(*s)),
        values_non_empty(records_of(r@)),
{
    s.range(None, None, Order::Ascending).collect()
}

/// A full export of a store: its entries, in ascending key order.
#[derive(Clone, PartialEq, Debug)]
pub struct IdbStateDump {
    /// The key-value pairs of the store.
    pub state_dump: Vec<(Vec<u8>, Vec<u8>)>,
}

impl View for IdbStateDump {
    type V = Seq<(Seq<u8>, Seq<u8>)>;

    open spec fn view(&self) -> Seq<(Seq<u8>, Seq<u8>)> {
        records_of(self.state_dump@)
    }
}

impl IdbStateDump {
    /// Exports every entry of the store, in ascending key order.
    pub fn from(store: MemoryStorage) -> (r: IdbStateDump)
        ensures
            is_export_of(r@, storage_entries(store)),
            values_non_empty(r@),
    {
        IdbStateDump { state_dump: storage_records(&store) }
    }
}

/// A store materialized from a dump.
pub struct IdbStorage {
    pub storage: MemoryStorage,
}

impl IdbStorage {
    /// A fresh store holding the entries of the dump, later entries replacing
    /// earlier ones with the same key.
    pub fn load(idb: IdbStateDump) -> (r: Self)
        requires
            values_non_empty(idb@),
        ensures
            storage_entries(r.storage) == apply_entries(no_entries(), idb@),
    {
        let mut store = IdbStorage { storage: storage_new() };
        store.load_to_mem_storage(idb);
        store
    }

    /// Sets each entry of the dump in turn into the store.
    pub fn load_to_mem_storage(&mut self, idb_state: IdbStateDump)
        requires
            values_non_empty(idb_state@),
        ensures
            storage_entries(final(self).storage) == apply_entries(
                storage_entries(old(self).storage),
                idb_state@,
            ),
    {
        let ghost start = storage_entries(self.storage);
        let n = idb_state.state_dump.len();
        let mut i: usize = 0;
        while i < n
            invariant
                n == idb_state.state_dump@.len(),
                i <= n,
                values_non_empty(idb_state@),
                storage_entries(self.storage) == apply_entries(
                    start,
                    idb_state@.subrange(0, i as int),
                ),
            decreases n - i,
        {
            let entry = &idb_state.state_dump[i];
            assert(idb_state@[i as int].1.len() > 0);
            storage_set(&mut self.storage, entry.0.as_slice(), entry.1.as_slice());
            assert(idb_state@.subrange(0, i + 1).drop_last() =~= idb_state@.subrange(0, i as int));
            i = i + 1;
        }
        assert(idb_state@.subrange(0, n as int) =~= idb_state@);
    }
}

/// No byte string is below itself.
pub proof fn lemma_bytes_lt_irreflexive(a: Seq<u8>)
    ensures
        !bytes_lt(a, a),
    decreases a.len(),
{
    if a.len() > 0 {
        lemma_bytes_lt_irreflexive(a.drop_first());
    }
}

/// No two byte strings are each below the other.
pub proof fn lemma_bytes_lt_asymmetric(a: Seq<u8>, b: Seq<u8>)
    requires
        bytes_lt(a, b),
    ensures
        !bytes_lt(b, a),
    decreases a.len(),
{
    if a.len() > 0 && b.len() > 0 && a[0] == b[0] {
        lemma_bytes_lt_asymmetric(a.drop_first(), b.drop_first());
    }
}

/// An export is canonical: any two exports of the same entries are the same
/// list, so exporting a loaded dump always gives its entries sorted by key,
/// with the last value of each repeated key.
pub proof fn lemma_export_unique(
    m: Map<Seq<u8>, Seq<u8>>,
    d1: Seq<(Seq<u8>, Seq<u8>)>,
    d2: Seq<(Seq<u8>, Seq<u8>)>,
)
    requires
        is_export_of(d1, m),
        is_export_of(d2, m),
    ensures
        d1 == d2,
    decreases d1.len(),
{
    if d1.len() == 0 {
        if d2.len() > 0 {
            assert(m.contains_key(d2[0].0));
        }
        assert(d1 =~= d2);
    } else if d2.len() == 0 {
        assert(m.contains_key(d1[0].0));
    } else {
        let a = d1[0].0;
        let b = d2[0].0;
        assert(m.contains_key(a) && m.contains_key(b));
        let j = choose|j: int| 0 <= j < d2.len() && (#[trigger] d2[j]).0 == a;
        let i = choose|i: int| 0 <= i < d1.len() && (#[trigger] d1[i]).0 == b;
        if a != b {
            assert(bytes_lt(d1[0].0, d1[i].0));
            assert(bytes_lt(d2[0].0, d2[j].0));
            lemma_bytes_lt_asymmetric(a, b);
        }
        let r = m.remove(a);
        let t1 = d1.drop_first();
        let t2 = d2.drop_first();
        assert forall|k: int| 0 <= k < t1.len() implies (#[trigger] t1[k]).0 != a by {
            assert(bytes_lt(d1[0].0, d1[k + 1].0));
            lemma_bytes_lt_irreflexive(a);
        }
        assert forall|k: int| 0 <= k < t2.len() implies (#[trigger] t2[k]).0 != a by {
            assert(bytes_lt(d2[0].0, d2[k + 1].0));
            lemma_bytes_lt_irreflexive(a);
        }
        assert forall|x: int, y: int| 0 <= x < y < t1.len() implies bytes_lt(
            #[trigger] t1[x].0,
            #[trigger] t1[y].0,
        ) by {
            assert(bytes_lt(d1[x + 1].0, d1[y + 1].0));
        }
        assert forall|x: int, y: int| 0 <= x < y < t2.len() implies bytes_lt(
            #[trigger] t2[x].0,
            #[trigger] t2[y].0,
        ) by {
            assert(bytes_lt(d2[x + 1].0, d2[y + 1].0));
        }
        assert forall|k: int| 0 <= k < t1.len() implies r.contains_key((#[trigger] t1[k]).0) && r[t1[k].0] == t1[k].1 by {
            assert(t1[k] == d1[k + 1]);
        }
        assert forall|k: int| 0 <= k < t2.len() implies r.contains_key((#[trigger] t2[k]).0) && r[t2[k].0] == t2[k].1 by {
            assert(t2[k] == d2[k + 1]);
        }
        assert forall|k: Seq<u8>| #[trigger] r.contains_key(k) implies exists|x: int| 0 <= x < t1.len() && (#[trigger] t1[x]).0 == k by {
            let x = choose|x: int| 0 <= x < d1.len() && (#[trigger] d1[x]).0 == k;
            assert(t1[x - 1] == d1[x]);
        }
        assert forall|k: Seq<u8>| #[trigger] r.contains_key(k) implies exists|x: int| 0 <= x < t2.len() && (#[trigger] t2[x]).0 == k by {
            let x = choose|x: int| 0 <= x < d2.len() && (#[trigger] d2[x]).0 == k;
            assert(t2[x - 1] == d2[x]);
        }
        lemma_export_unique(r, t1, t2);
        assert(d1[0] == d2[0]);
        assert(d1 =~= seq![d1[0]] + t1);
        assert(d2 =~= seq![d2[0]] + t2);
    }
}

/// Setting entries with pairwise distinct keys into an empty map gives a map
/// that holds exactly those entries.
proof fn lemma_apply_distinct(d: Seq<(Seq<u8>, Seq<u8>)>)
    requires
        forall|i: int, j: int| 0 <= i < j < d.len() ==> #[trigger] d[i].0 != #[trigger] d[j].0,
    ensures
        forall|i: int| 0 <= i < d.len() ==> apply_entries(no_entries(), d).contains_key(#[trigger] d[i].0)
            && apply_entries(no_entries(), d)[d[i].0] == d[i].1,
        forall|k: Seq<u8>| #[trigger] apply_entries(no_entries(), d).contains_key(k) ==> exists|i: int|
            0 <= i < d.len() && (#[trigger] d[i]).0 == k,
    decreases d.len(),
{
    if d.len() > 0 {
        let p = d.drop_last();
        assert forall|i: int, j: int| 0 <= i < j < p.len() implies #[trigger] p[i].0 != #[trigger] p[j].0 by {
            assert(p[i] == d[i] && p[j] == d[j]);
        }
        lemma_apply_distinct(p);
        let m = apply_entries(no_entries(), d);
        assert(m == apply_entries(no_entries(), p).insert(d.last().0, d.last().1));
        assert forall|i: int| 0 <= i < d.len() implies m.contains_key(#[trigger] d[i].0) && m[d[i].0] == d[i].1 by {
            if i < d.len() - 1 {
                assert(p[i] == d[i]);
                assert(d[i].0 != d[d.len() - 1].0);
            }
        }
        assert forall|k: Seq<u8>| #[trigger] m.contains_key(k) implies exists|i: int| 0 <= i < d.len() && (#[trigger] d[i]).0 == k by {
            if k != d.last().0 {
                assert(apply_entries(no_entries(), p).contains_key(k));
                let i = choose|i: int| 0 <= i < p.len() && (#[trigger] p[i]).0 == k;
                assert(d[i] == p[i]);
            } else {
                assert(d[d.len() - 1].0 == k);
            }
        }
    }
}

/// Loading an export of a store gives back exactly the store's entries.
pub proof fn lemma_load_export_round_trip(m: Map<Seq<u8>, Seq<u8>>, d: Seq<(Seq<u8>, Seq<u8>)>)
    requires
        is_export_of(d, m),
    ensures
        apply_entries(no_entries(), d) == m,
{
    assert forall|i: int, j: int| 0 <= i < j < d.len() implies #[trigger] d[i].0 != #[trigger] d[j].0 by {
        assert(bytes_lt(d[i].0, d[j].0));
        if d[i].0 == d[j].0 {
            lemma_bytes_lt_irreflexive(d[i].0);
        }
    }
    lemma_apply_distinct(d);
    let r = apply_entries(no_entries(), d);
    assert forall|k: Seq<u8>| #[trigger] r.contains_key(k) <==> m.contains_key(k) by {
        if r.contains_key(k) {
            let i = choose|i: int| 0 <= i < d.len() && (#[trigger] d[i]).0 == k;
        }
        if m.contains_key(k) {
            let i = choose|i: int| 0 <= i < d.len() && (#[trigger] d[i]).0 == k;
        }
    }
    assert forall|k: Seq<u8>| #[trigger] r.contains_key(k) implies r[k] == m[k] by {
        let i = choose|i: int| 0 <= i < d.len() && (#[trigger] d[i]).0 == k;
    }
    assert(r =~= m);
}

} // verus!
