//! Association lists keyed by `ProposalId`, the executable stand-in for the
//! finite maps the learner state is modelled with, together with small
//! helpers on vectors of node identifiers.

use vstd::prelude::*;

use crate::types::NodeId;
use crate::types::ProposalId;

verus! {

/// True when some entry of `s` carries key `k`.
pub open spec fn has_key<T>(s: Seq<(ProposalId, T)>, k: ProposalId) -> bool {
    exists|i: int| 0 <= i < s.len() && s[i].0 == k
}

/// The index of an entry of `s` carrying key `k`.
pub open spec fn key_index<T>(s: Seq<(ProposalId, T)>, k: ProposalId) -> int {
    choose|i: int| 0 <= i < s.len() && s[i].0 == k
}

/// The value stored under key `k`.
pub open spec fn value_at<T>(s: Seq<(ProposalId, T)>, k: ProposalId) -> T
    recommends
        has_key(s, k),
{
    s[key_index(s, k)].1
}

/// True when no two entries of `s` share a key.
pub open spec fn keys_distinct<T>(s: Seq<(ProposalId, T)>) -> bool {
    forall|i: int, j: int| 0 <= i < j < s.len() ==> s[i].0 != s[j].0
}

/// The finite map an association list stands for.
pub open spec fn kv_map<T>(s: Seq<(ProposalId, T)>) -> Map<ProposalId, T> {
    Map::new(|k: ProposalId| has_key(s, k), |k: ProposalId| value_at(s, k))
}

/// Under distinct keys, the entry at index `i` is the map entry for its key.
pub proof fn lemma_entry_at<T>(s: Seq<(ProposalId, T)>, i: int)
    requires
        keys_distinct(s),
        0 <= i < s.len(),
    ensures
        has_key(s, s[i].0),
        key_index(s, s[i].0) == i,
        kv_map(s)[s[i].0] == s[i].1,
{
    assert(has_key(s, s[i].0));
    let j = key_index(s, s[i].0);
    assert(0 <= j < s.len() && s[j].0 == s[i].0);
    if i < j {
        assert(s[i].0 != s[j].0);
    } else if j < i {
        assert(s[j].0 != s[i].0);
    }
}

/// Appending an entry under a fresh key inserts it into the map.
pub proof fn lemma_push_fresh<T>(s: Seq<(ProposalId, T)>, e: (ProposalId, T))
    requires
        keys_distinct(s),
        !has_key(s, e.0),
    ensures
        keys_distinct(s.push(e)),
        kv_map(s.push(e)) == kv_map(s).insert(e.0, e.1),
{
    let t = s.push(e);
    assert forall|k: ProposalId| #[trigger] has_key(t, k) <==> has_key(s, k) || k == e.0 by {
        if has_key(t, k) {
            let i = key_index(t, k);
            assert(0 <= i < t.len() && t[i].0 == k);
            if i < s.len() {
                assert(s[i] == t[i]);
                assert(has_key(s, k));
            }
        }
        if has_key(s, k) {
            let i = key_index(s, k);
            assert(t[i] == s[i]);
            assert(has_key(t, k));
        }
        if k == e.0 {
            assert(t[s.len() as int] == e);
            assert(has_key(t, k));
        }
    }
    assert(keys_distinct(t)) by {
        assert forall|i: int, j: int| 0 <= i < j < t.len() implies t[i].0 != t[j].0 by {
            if j < s.len() {
                assert(s[i].0 != s[j].0);
            } else {
                assert(t[j] == e);
                if t[i].0 == e.0 {
                    assert(s[i] == t[i]);
                    assert(has_key(s, e.0));
                }
            }
        }
    }
    assert forall|k: ProposalId| has_key(t, k) implies #[trigger] kv_map(t)[k] == kv_map(
        s,
    ).insert(e.0, e.1)[k] by {
        let i = key_index(t, k);
        assert(0 <= i < t.len() && t[i].0 == k);
        if k == e.0 {
            assert(i == s.len()) by {
                if i < s.len() {
                    assert(s[i] == t[i]);
                    assert(has_key(s, e.0));
                }
            }
            assert(kv_map(t)[k] == e.1);
        } else {
            assert(i < s.len()) by {
                if i == s.len() {
                    assert(t[i] == e);
                }
            }
            assert(s[i] == t[i]);
            lemma_entry_at(s, i);
            assert(kv_map(t)[k] == t[i].1);
        }
    }
    assert(kv_map(t) =~= kv_map(s).insert(e.0, e.1));
}

/// Replacing the value at index `i` updates the map at that entry's key.
pub proof fn lemma_set_value<T>(s: Seq<(ProposalId, T)>, i: int, v: T)
    requires
        keys_distinct(s),
        0 <= i < s.len(),
    ensures
        keys_distinct(s.update(i, (s[i].0, v))),
        kv_map(s.update(i, (s[i].0, v))) == kv_map(s).insert(s[i].0, v),
{
    let t = s.update(i, (s[i].0, v));
    assert forall|m: int| 0 <= m < t.len() implies #[trigger] t[m].0 == s[m].0 by {}
    assert forall|k: ProposalId| #[trigger] has_key(t, k) <==> has_key(s, k) by {
        if has_key(t, k) {
            let m = key_index(t, k);
            assert(s[m].0 == k);
        }
        if has_key(s, k) {
            let m = key_index(s, k);
            assert(t[m].0 == k);
        }
    }
    assert forall|k: ProposalId| has_key(t, k) implies #[trigger] kv_map(t)[k] == kv_map(
        s,
    ).insert(s[i].0, v)[k] by {
        let m = key_index(t, k);
        assert(0 <= m < t.len() && t[m].0 == k);
        lemma_entry_at(t, m);
        if k == s[i].0 {
            assert(m == i) by {
                if m < i {
                    assert(t[m].0 != t[i].0);
                } else if i < m {
                    assert(t[i].0 != t[m].0);
                }
                assert(t[i].0 == s[i].0);
            }
            assert(kv_map(t)[k] == v);
        } else {
            assert(m != i);
            assert(t[m] == s[m]);
            lemma_entry_at(s, m);
            assert(kv_map(t)[k] == s[m].1);
        }
    }
    assert(kv_map(t) =~= kv_map(s).insert(s[i].0, v));
}

/// Removing the entry at index `i` removes that entry's key from the map.
pub proof fn lemma_remove_entry<T>(s: Seq<(ProposalId, T)>, i: int)
    requires
        keys_distinct(s),
        0 <= i < s.len(),
    ensures
        keys_distinct(s.remove(i)),
        kv_map(s.remove(i)) == kv_map(s).remove(s[i].0),
{
    let t = s.remove(i);
    assert forall|m: int| 0 <= m < t.len() implies #[trigger] t[m] == (if m < i {
        s[m]
    } else {
        s[m + 1]
    }) by {}
    assert(keys_distinct(t)) by {
        assert forall|m: int, n: int| 0 <= m < n < t.len() implies t[m].0 != t[n].0 by {
            let m2 = if m < i { m } else { m + 1 };
            let n2 = if n < i { n } else { n + 1 };
            assert(s[m2].0 != s[n2].0);
        }
    }
    assert forall|k: ProposalId| #[trigger] has_key(t, k) <==> (has_key(s, k) && k != s[i].0) by {
        if has_key(t, k) {
            let m = key_index(t, k);
            let m2 = if m < i { m } else { m + 1 };
            assert(s[m2].0 == k);
            assert(has_key(s, k));
            if m2 < i {
                assert(s[m2].0 != s[i].0);
            } else {
                assert(s[i].0 != s[m2].0);
            }
        }
        if has_key(s, k) && k != s[i].0 {
            let m = key_index(s, k);
            assert(0 <= m < s.len() && s[m].0 == k);
            assert(m != i);
            if m < i {
                assert(t[m].0 == k);
            } else {
                assert(t[m - 1].0 == k);
            }
            assert(has_key(t, k));
        }
    }
    assert forall|k: ProposalId| has_key(t, k) implies #[trigger] kv_map(t)[k] == kv_map(s).remove(
        s[i].0,
    )[k] by {
        let m = key_index(t, k);
        assert(0 <= m < t.len() && t[m].0 == k);
        lemma_entry_at(t, m);
        let m2 = if m < i { m } else { m + 1 };
        assert(t[m] == s[m2]);
        lemma_entry_at(s, m2);
        assert(kv_map(t)[k] == s[m2].1);
    }
    assert(kv_map(t) =~= kv_map(s).remove(s[i].0));
}

/// Finds the index of the entry carrying key `k`, if any.
pub fn find_index<T>(v: &Vec<(ProposalId, T)>, k: ProposalId) -> (r: Option<usize>)
    ensures
        match r {
            Option::Some(i) => i < v@.len() && v@[i as int].0 == k,
            Option::None => !has_key(v@, k),
        },
{
    let mut i: usize = 0;
    while i < v.len()
        invariant
            i <= v@.len(),
            forall|j: int| 0 <= j < i ==> v@[j].0 != k,
        decreases v@.len() - i,
    {
        if v[i].0 == k {
            return Option::Some(i);
        }
        i = i + 1;
    }
    Option::None
}

/// True when `x` occurs in `v`.
pub fn contains_node(v: &Vec<NodeId>, x: NodeId) -> (r: bool)
    ensures
        r == v@.contains(x),
{
    let mut i: usize = 0;
    while i < v.len()
        invariant
            i <= v@.len(),
            forall|j: int| 0 <= j < i ==> v@[j] != x,
        decreases v@.len() - i,
    {
        if v[i] == x {
            return true;
        }
        i = i + 1;
    }
    false
}

} // verus!
