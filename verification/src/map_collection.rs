use vstd::prelude::*;
use crate::types::NodeId;

verus! {

/// First value bound to `key`, scanning from the front.
pub open spec fn assoc_get(s: Seq<(NodeId, u64)>, key: NodeId) -> Option<u64>
    decreases s.len(),
{
    if s.len() == 0 {
        None
    } else if s[0].0 == key {
        Some(s[0].1)
    } else {
        assoc_get(s.drop_first(), key)
    }
}

/// `s` with `key` bound to `value`: updated in place at its first
/// occurrence, or appended at the back when absent.
pub open spec fn assoc_put(s: Seq<(NodeId, u64)>, key: NodeId, value: u64) -> Seq<(NodeId, u64)>
    decreases s.len(),
{
    if s.len() == 0 {
        seq![(key, value)]
    } else if s[0].0 == key {
        seq![(key, value)] + s.drop_first()
    } else {
        seq![s[0]] + assoc_put(s.drop_first(), key, value)
    }
}

/// How many bound values are at least `n`.
pub open spec fn count_at_least(s: Seq<(NodeId, u64)>, n: u64) -> nat {
    s.filter(|p: (NodeId, u64)| p.1 >= n).len()
}

/// A finite map from node identifiers to 64-bit counters, viewed as an
/// association sequence in insertion order. The leader keeps its
/// `next_index` and `match_index` bookkeeping in one of these.
pub trait MapCollection: Sized {
    spec fn entries(&self) -> Seq<(NodeId, u64)>;

    fn new() -> (r: Self)
        ensures
            r.entries() == Seq::<(NodeId, u64)>::empty(),
    ;

    fn get(&self, key: NodeId) -> (r: Option<u64>)
        ensures
            r == assoc_get(self.entries(), key),
    ;

    /// Inserts or updates, keeping the insertion order of existing keys.
    fn insert(&mut self, key: NodeId, value: u64)
        ensures
            final(self).entries() == assoc_put(old(self).entries(), key, value),
    ;

    fn len(&self) -> (n: usize)
        ensures
            n == self.entries().len(),
    ;

    fn entry_at(&self, i: usize) -> (r: (NodeId, u64))
        requires
            i < self.entries().len(),
        ensures
            r == self.entries()[i as int],
    ;

    fn clear(&mut self)
        ensures
            final(self).entries() == Seq::<(NodeId, u64)>::empty(),
    ;
}

/// No key occurs twice.
pub open spec fn unique_keys(s: Seq<(NodeId, u64)>) -> bool {
    forall|i: int, j: int| 0 <= i < j < s.len() ==> (#[trigger] s[i]).0 != (#[trigger] s[j]).0
}

/// Every key of `keys` bound to `value`, in order, on top of `s`.
pub open spec fn put_all(s: Seq<(NodeId, u64)>, keys: Seq<NodeId>, value: u64) -> Seq<(NodeId, u64)>
    decreases keys.len(),
{
    if keys.len() == 0 {
        s
    } else {
        put_all(assoc_put(s, keys[0], value), keys.drop_first(), value)
    }
}

/// `put_all` peels keys from the back as well as from the front.
pub proof fn lemma_put_all_push(s: Seq<(NodeId, u64)>, keys: Seq<NodeId>, key: NodeId, value: u64)
    ensures
        put_all(s, keys.push(key), value) == assoc_put(put_all(s, keys, value), key, value),
    decreases keys.len(),
{
    let pushed = keys.push(key);
    if keys.len() == 0 {
        assert(pushed[0] == key);
        assert(pushed.drop_first() =~= Seq::<NodeId>::empty());
        assert(put_all(s, pushed, value) == put_all(
            assoc_put(s, pushed[0], value),
            pushed.drop_first(),
            value,
        ));
        assert(put_all(assoc_put(s, key, value), Seq::<NodeId>::empty(), value) == assoc_put(
            s,
            key,
            value,
        ));
        assert(put_all(s, keys, value) == s);
    } else {
        assert(pushed[0] == keys[0]);
        assert(pushed.drop_first() =~= keys.drop_first().push(key));
        assert(put_all(s, pushed, value) == put_all(
            assoc_put(s, pushed[0], value),
            pushed.drop_first(),
            value,
        ));
        lemma_put_all_push(assoc_put(s, keys[0], value), keys.drop_first(), key, value);
        assert(put_all(s, keys, value) == put_all(
            assoc_put(s, keys[0], value),
            keys.drop_first(),
            value,
        ));
    }
}

/// A lower bound on the bound values survives `assoc_put` of a value that
/// meets it.
pub proof fn lemma_assoc_put_preserves_lower_bound(
    s: Seq<(NodeId, u64)>,
    key: NodeId,
    value: u64,
    bound: u64,
)
    requires
        forall|i: int| 0 <= i < s.len() ==> (#[trigger] s[i]).1 >= bound,
        value >= bound,
    ensures
        forall|i: int|
            0 <= i < assoc_put(s, key, value).len() ==> (#[trigger] assoc_put(s, key, value)[i]).1
                >= bound,
    decreases s.len(),
{
    let t = assoc_put(s, key, value);
    if s.len() == 0 {
    } else if s[0].0 == key {
        assert(forall|i: int| 0 <= i < s.drop_first().len() ==> #[trigger] s.drop_first()[i] == s[i + 1]);
        assert(forall|i: int| 1 <= i < t.len() ==> #[trigger] t[i] == s[i]);
    } else {
        assert(forall|i: int| 0 <= i < s.drop_first().len() ==> #[trigger] s.drop_first()[i] == s[i + 1]);
        lemma_assoc_put_preserves_lower_bound(s.drop_first(), key, value, bound);
        assert(forall|i: int|
            1 <= i < t.len() ==> #[trigger] t[i] == assoc_put(s.drop_first(), key, value)[i - 1]);
    }
}

/// `assoc_get` reads the first occurrence of a key.
pub proof fn lemma_assoc_get_at(s: Seq<(NodeId, u64)>, key: NodeId, i: int)
    requires
        0 <= i < s.len(),
        s[i].0 == key,
        forall|j: int| 0 <= j < i ==> (#[trigger] s[j]).0 != key,
    ensures
        assoc_get(s, key) == Some(s[i].1),
    decreases i,
{
    if i > 0 {
        assert(forall|j: int| 0 <= j < s.drop_first().len() ==> #[trigger] s.drop_first()[j] == s[j + 1]);
        lemma_assoc_get_at(s.drop_first(), key, i - 1);
    }
}

/// `assoc_get` misses exactly the keys that do not occur.
pub proof fn lemma_assoc_get_absent(s: Seq<(NodeId, u64)>, key: NodeId)
    requires
        forall|j: int| 0 <= j < s.len() ==> (#[trigger] s[j]).0 != key,
    ensures
        assoc_get(s, key) is None,
    decreases s.len(),
{
    if s.len() > 0 {
        assert(forall|j: int| 0 <= j < s.drop_first().len() ==> #[trigger] s.drop_first()[j] == s[j + 1]);
        lemma_assoc_get_absent(s.drop_first(), key);
    }
}

/// Putting a key that occurs first at position `i` updates that position.
pub proof fn lemma_assoc_put_is_update(s: Seq<(NodeId, u64)>, key: NodeId, value: u64, i: int)
    requires
        0 <= i < s.len(),
        s[i].0 == key,
        forall|j: int| 0 <= j < i ==> (#[trigger] s[j]).0 != key,
    ensures
        assoc_put(s, key, value) == s.update(i, (key, value)),
    decreases i,
{
    if i == 0 {
        assert(assoc_put(s, key, value) =~= s.update(0, (key, value)));
    } else {
        assert(forall|j: int| 0 <= j < s.drop_first().len() ==> #[trigger] s.drop_first()[j] == s[j + 1]);
        lemma_assoc_put_is_update(s.drop_first(), key, value, i - 1);
        assert(assoc_put(s, key, value) =~= s.update(i, (key, value)));
    }
}

/// Putting an absent key appends it at the back.
pub proof fn lemma_assoc_put_is_push(s: Seq<(NodeId, u64)>, key: NodeId, value: u64)
    requires
        forall|j: int| 0 <= j < s.len() ==> (#[trigger] s[j]).0 != key,
    ensures
        assoc_put(s, key, value) == s.push((key, value)),
    decreases s.len(),
{
    if s.len() == 0 {
        assert(assoc_put(s, key, value) =~= s.push((key, value)));
    } else {
        assert(forall|j: int| 0 <= j < s.drop_first().len() ==> #[trigger] s.drop_first()[j] == s[j + 1]);
        lemma_assoc_put_is_push(s.drop_first(), key, value);
        assert(assoc_put(s, key, value) =~= s.push((key, value)));
    }
}

/// What `assoc_get` returns was bound somewhere in the sequence.
pub proof fn lemma_assoc_get_in(s: Seq<(NodeId, u64)>, key: NodeId)
    requires
        assoc_get(s, key) is Some,
    ensures
        exists|i: int|
            0 <= i < s.len() && (#[trigger] s[i]).0 == key && s[i].1 == assoc_get(s, key)->Some_0,
    decreases s.len(),
{
    if s.len() > 0 && s[0].0 != key {
        lemma_assoc_get_in(s.drop_first(), key);
        let i = choose|i: int|
            0 <= i < s.drop_first().len() && (#[trigger] s.drop_first()[i]).0 == key
                && s.drop_first()[i].1 == assoc_get(s.drop_first(), key)->Some_0;
        assert(s[i + 1] == s.drop_first()[i]);
    }
}

/// `assoc_get` finds exactly the keys that occur in the sequence.
pub proof fn lemma_assoc_get_some_iff(s: Seq<(NodeId, u64)>, key: NodeId)
    ensures
        assoc_get(s, key) is Some <==> exists|i: int| 0 <= i < s.len() && (#[trigger] s[i]).0 == key,
    decreases s.len(),
{
    if s.len() > 0 && s[0].0 != key {
        lemma_assoc_get_some_iff(s.drop_first(), key);
        if assoc_get(s, key) is Some {
            let i = choose|i: int| 0 <= i < s.drop_first().len() && (#[trigger] s.drop_first()[i]).0 == key;
            assert(s[i + 1].0 == key);
        }
        if exists|i: int| 0 <= i < s.len() && (#[trigger] s[i]).0 == key {
            let i = choose|i: int| 0 <= i < s.len() && (#[trigger] s[i]).0 == key;
            assert(s.drop_first()[i - 1] == s[i]);
        }
    }
}

/// With unique keys, `assoc_get` after `assoc_put` reads back what was put,
/// leaves other keys alone, and `assoc_put` keeps the keys unique.
pub proof fn lemma_assoc_put_get(s: Seq<(NodeId, u64)>, key: NodeId, value: u64)
    requires
        unique_keys(s),
    ensures
        unique_keys(assoc_put(s, key, value)),
        assoc_get(assoc_put(s, key, value), key) == Some(value),
        forall|k: NodeId| k != key ==> #[trigger] assoc_get(assoc_put(s, key, value), k)
            == assoc_get(s, k),
    decreases s.len(),
{
    let t = assoc_put(s, key, value);
    if s.len() == 0 {
        assert(t == seq![(key, value)]);
        assert(forall|k: NodeId| k != key ==> #[trigger] assoc_get(t, k) == assoc_get(t.drop_first(), k));
        assert(t.drop_first() =~= Seq::<(NodeId, u64)>::empty());
    } else if s[0].0 == key {
        assert(t == seq![(key, value)] + s.drop_first());
        assert(t.drop_first() =~= s.drop_first());
        assert(t[0] == (key, value));
        lemma_assoc_get_some_iff(s.drop_first(), key);
        assert(forall|i: int| 0 <= i < s.drop_first().len() ==> #[trigger] s.drop_first()[i] == s[i + 1]);
        assert(forall|k: NodeId| k != key ==> #[trigger] assoc_get(t, k) == assoc_get(t.drop_first(), k));
        assert(forall|k: NodeId| k != key ==> #[trigger] assoc_get(s, k) == assoc_get(s.drop_first(), k));
        assert(forall|i: int, j: int| 0 <= i < j < t.len() ==> (#[trigger] t[i]).0 != (#[trigger] t[j]).0) by {
            assert forall|i: int, j: int| 0 <= i < j < t.len() implies (#[trigger] t[i]).0 != (#[trigger] t[j]).0 by {
                if i == 0 {
                    // t[j] comes from s.drop_first(); key does not occur there.
                    assert(t[j] == s[j]);
                    assert(assoc_get(s.drop_first(), key) is None);
                } else {
                    assert(t[i] == s[i] && t[j] == s[j]);
                }
            }
        }
    } else {
        assert(unique_keys(s.drop_first())) by {
            assert(forall|i: int| 0 <= i < s.drop_first().len() ==> #[trigger] s.drop_first()[i] == s[i + 1]);
        }
        lemma_assoc_put_get(s.drop_first(), key, value);
        let u = assoc_put(s.drop_first(), key, value);
        assert(t == seq![s[0]] + u);
        assert(t[0] == s[0]);
        assert(t.drop_first() =~= u);
        // s[0].0 never occurs in s.drop_first(), hence not in u either.
        lemma_assoc_get_some_iff(s.drop_first(), s[0].0);
        assert(forall|i: int| 0 <= i < s.drop_first().len() ==> #[trigger] s.drop_first()[i] == s[i + 1]);
        assert(assoc_get(s.drop_first(), s[0].0) is None);
        assert(assoc_get(u, s[0].0) is None);
        lemma_assoc_get_some_iff(u, s[0].0);
        assert forall|k: NodeId| k != key implies #[trigger] assoc_get(t, k) == assoc_get(s, k) by {
            if k == s[0].0 {
                assert(assoc_get(t, k) == Some(s[0].1));
                assert(assoc_get(s, k) == Some(s[0].1));
            } else {
                assert(assoc_get(t, k) == assoc_get(u, k));
                assert(assoc_get(s, k) == assoc_get(s.drop_first(), k));
            }
        }
        assert forall|i: int, j: int| 0 <= i < j < t.len() implies (#[trigger] t[i]).0 != (#[trigger] t[j]).0 by {
            if i == 0 {
                assert(t[j] == u[j - 1]);
            } else {
                assert(t[i] == u[i - 1] && t[j] == u[j - 1]);
            }
        }
    }
}

} // verus!
