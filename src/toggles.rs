use indexmap::IndexMap;
use vstd::prelude::*;

verus! {

#[verifier::external_type_specification]
#[verifier::external_body]
#[verifier::reject_recursive_types(K)]
#[verifier::reject_recursive_types(V)]
#[verifier::reject_recursive_types(S)]
pub struct ExIndexMap<K, V, S>(IndexMap<K, V, S>);

/// The ordered entries of a name -> flag map, names as character sequences.
pub uninterp spec fn toggle_entries(m: IndexMap<String, bool>) -> Seq<(Seq<char>, bool)>;

/// No two entries share a name.
pub open spec fn has_unique_keys(s: Seq<(Seq<char>, bool)>) -> bool {
    forall|i: int, j: int|
        0 <= i < s.len() && 0 <= j < s.len() && i != j ==> #[trigger] s[i].0 != #[trigger] s[j].0
}

/// The entries after setting `k` to `v`: an existing entry keeps its place and
/// takes the new flag, a new name goes last.
pub open spec fn with_entry(s: Seq<(Seq<char>, bool)>, k: Seq<char>, v: bool) -> Seq<(Seq<char>, bool)>
    decreases s.len(),
{
    if s.len() == 0 {
        seq![(k, v)]
    } else if s[0].0 == k {
        seq![(k, v)] + s.drop_first()
    } else {
        seq![s[0]] + with_entry(s.drop_first(), k, v)
    }
}

/// The flag stored under `k`, if any.
pub open spec fn lookup(s: Seq<(Seq<char>, bool)>, k: Seq<char>) -> Option<bool>
    decreases s.len(),
{
    if s.len() == 0 {
        None
    } else if s[0].0 == k {
        Some(s[0].1)
    } else {
        lookup(s.drop_first(), k)
    }
}

/// Exactly one entry has the name `k`, and it holds `v`.
pub open spec fn holds_once(s: Seq<(Seq<char>, bool)>, k: Seq<char>, v: bool) -> bool {
    exists|i: int|
        0 <= i < s.len() && #[trigger] s[i] == (k, v) && forall|j: int|
            0 <= j < s.len() && #[trigger] s[j].0 == k ==> j == i
}

/// The entries of a list of owned pairs, in the same order.
pub open spec fn entries_of(v: Seq<(String, bool)>) -> Seq<(Seq<char>, bool)> {
    v.map_values(|e: (String, bool)| (e.0@, e.1))
}

/// Every name in `with_entry(s, k, v)` is `k` or a name of `s`, and `k` maps to `v`.
pub proof fn lemma_with_entry_keys(s: Seq<(Seq<char>, bool)>, k: Seq<char>, v: bool)
    ensures
        forall|i: int|
            0 <= i < with_entry(s, k, v).len() ==> (#[trigger] with_entry(s, k, v)[i]).0 == k
                || exists|j: int| 0 <= j < s.len() && s[j].0 == with_entry(s, k, v)[i].0,
        lookup(with_entry(s, k, v), k) == Some(v),
        exists|i: int| 0 <= i < with_entry(s, k, v).len() && with_entry(s, k, v)[i] == (k, v),
    decreases s.len(),
{
    let r = with_entry(s, k, v);
    if s.len() == 0 {
        assert(r[0] == (k, v));
    } else if s[0].0 == k {
        assert(r[0] == (k, v));
        assert forall|i: int| 0 <= i < r.len() implies (#[trigger] r[i]).0 == k
            || exists|j: int| 0 <= j < s.len() && s[j].0 == r[i].0 by {
            if i > 0 {
                assert(r[i] == s[i]);
            }
        }
    } else {
        let t = s.drop_first();
        lemma_with_entry_keys(t, k, v);
        let rt = with_entry(t, k, v);
        assert(r.drop_first() =~= rt);
        let p = choose|p: int| 0 <= p < rt.len() && rt[p] == (k, v);
        assert(r[p + 1] == (k, v));
        assert forall|i: int| 0 <= i < r.len() implies (#[trigger] r[i]).0 == k
            || exists|j: int| 0 <= j < s.len() && s[j].0 == r[i].0 by {
            if i == 0 {
                assert(s[0].0 == r[0].0);
            } else {
                assert(r[i] == rt[i - 1]);
                if rt[i - 1].0 != k {
                    let j = choose|j: int| 0 <= j < t.len() && t[j].0 == rt[i - 1].0;
                    assert(s[j + 1] == t[j]);
                }
            }
        }
    }
}

/// Setting a name keeps the names unique.
pub proof fn lemma_with_entry_unique(s: Seq<(Seq<char>, bool)>, k: Seq<char>, v: bool)
    requires
        has_unique_keys(s),
    ensures
        has_unique_keys(with_entry(s, k, v)),
    decreases s.len(),
{
    let r = with_entry(s, k, v);
    if s.len() == 0 {
    } else if s[0].0 == k {
        assert forall|i: int, j: int|
            0 <= i < r.len() && 0 <= j < r.len() && i != j implies #[trigger] r[i].0
            != #[trigger] r[j].0 by {
            if i > 0 {
                assert(r[i] == s[i]);
            }
            if j > 0 {
                assert(r[j] == s[j]);
            }
        }
    } else {
        let t = s.drop_first();
        assert(has_unique_keys(t)) by {
            assert forall|i: int, j: int|
                0 <= i < t.len() && 0 <= j < t.len() && i != j implies #[trigger] t[i].0
                != #[trigger] t[j].0 by {
                assert(t[i] == s[i + 1] && t[j] == s[j + 1]);
            }
        }
        lemma_with_entry_unique(t, k, v);
        lemma_with_entry_keys(t, k, v);
        let rt = with_entry(t, k, v);
        assert forall|i: int, j: int|
            0 <= i < r.len() && 0 <= j < r.len() && i != j implies #[trigger] r[i].0
            != #[trigger] r[j].0 by {
            if i > 0 && j > 0 {
                assert(r[i] == rt[i - 1] && r[j] == rt[j - 1]);
            } else {
                let x = if i == 0 { j } else { i };
                assert(r[x] == rt[x - 1]);
                if rt[x - 1].0 != k {
                    let m = choose|m: int| 0 <= m < t.len() && t[m].0 == rt[x - 1].0;
                    assert(s[m + 1] == t[m]);
                }
            }
        }
    }
}

/// Setting a name twice leaves what setting it once to the later flag leaves.
pub proof fn lemma_with_entry_twice(s: Seq<(Seq<char>, bool)>, k: Seq<char>, v1: bool, v2: bool)
    ensures
        with_entry(with_entry(s, k, v1), k, v2) == with_entry(s, k, v2),
    decreases s.len(),
{
    if s.len() == 0 {
        assert(with_entry(seq![(k, v1)], k, v2) =~= seq![(k, v2)]);
    } else if s[0].0 == k {
        let w = seq![(k, v1)] + s.drop_first();
        assert(w.drop_first() =~= s.drop_first());
    } else {
        let t = s.drop_first();
        lemma_with_entry_twice(t, k, v1, v2);
        let w = seq![s[0]] + with_entry(t, k, v1);
        assert(w.drop_first() =~= with_entry(t, k, v1));
    }
}

/// The entries that setting each pair of `items` in turn leaves, starting
/// from no entry: the first position of a name, the last flag given to it.
pub open spec fn entries_from(items: Seq<(Seq<char>, bool)>) -> Seq<(Seq<char>, bool)>
    decreases items.len(),
{
    if items.len() == 0 {
        Seq::empty()
    } else {
        with_entry(entries_from(items.drop_last()), items.last().0, items.last().1)
    }
}

/// Setting a name that is not there appends it.
pub proof fn lemma_with_entry_new_key(s: Seq<(Seq<char>, bool)>, k: Seq<char>, v: bool)
    requires
        forall|j: int| 0 <= j < s.len() ==> #[trigger] s[j].0 != k,
    ensures
        with_entry(s, k, v) == s.push((k, v)),
    decreases s.len(),
{
    if s.len() == 0 {
        assert(seq![(k, v)] =~= s.push((k, v)));
    } else {
        let t = s.drop_first();
        assert forall|j: int| 0 <= j < t.len() implies #[trigger] t[j].0 != k by {
            assert(t[j] == s[j + 1]);
        }
        lemma_with_entry_new_key(t, k, v);
        assert(seq![s[0]] + t.push((k, v)) =~= s.push((k, v)));
    }
}

/// Entries built from pairs with unique names are those pairs, in order.
pub proof fn lemma_entries_from_unique(items: Seq<(Seq<char>, bool)>)
    requires
        has_unique_keys(items),
    ensures
        entries_from(items) == items,
    decreases items.len(),
{
    if items.len() > 0 {
        let init = items.drop_last();
        assert(has_unique_keys(init)) by {
            assert forall|i: int, j: int|
                0 <= i < init.len() && 0 <= j < init.len() && i != j implies #[trigger] init[i].0
                != #[trigger] init[j].0 by {
                assert(init[i] == items[i] && init[j] == items[j]);
            }
        }
        lemma_entries_from_unique(init);
        let last = items.last();
        assert forall|j: int| 0 <= j < init.len() implies #[trigger] init[j].0 != last.0 by {
            assert(init[j] == items[j]);
        }
        lemma_with_entry_new_key(init, last.0, last.1);
        assert(init.push(last) =~= items);
    }
}

/// Entries built by setting names in turn never repeat a name.
pub proof fn lemma_entries_from_has_unique_keys(items: Seq<(Seq<char>, bool)>)
    ensures
        has_unique_keys(entries_from(items)),
    decreases items.len(),
{
    if items.len() > 0 {
        lemma_entries_from_has_unique_keys(items.drop_last());
        lemma_with_entry_unique(entries_from(items.drop_last()), items.last().0, items.last().1);
    }
}

/// Relies on indexmap::IndexMap::new: a new map holds no entry.
#[verifier::external_body]
pub(crate) fn new_toggles() -> (r: IndexMap<String, bool>)
    ensures
        toggle_entries(r) == Seq::<(Seq<char>, bool)>::empty(),
{
    IndexMap::new()
}

/// Relies on indexmap::IndexMap::insert: an existing key keeps its place and
/// takes the new value; a new key is appended last.
#[verifier::external_body]
pub(crate) fn insert_toggle(m: &mut IndexMap<String, bool>, k: String, v: bool)
    ensures
        toggle_entries(*final(m)) == with_entry(toggle_entries(*old(m)), k@, v),
{
    m.insert(k, v);
}

/// Relies on indexmap::IndexMap::iter: the entries in their order.
#[verifier::external_body]
pub(crate) fn toggle_list(m: &IndexMap<String, bool>) -> (r: Vec<(String, bool)>)
    ensures
        entries_of(r@) == toggle_entries(*m),
{
    m.iter().map(|(k, v)| (k.clone(), *v)).collect()
}

} // verus!
