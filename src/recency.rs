//! A recency-ordered sequence of key/value entries: the mathematical model of
//! the lookup cache. Index 0 holds the least recently used entry, the last
//! index the most recently used one.
use vstd::prelude::*;

verus! {

/// One cache entry: a name and the location it maps to.
pub type Entry = (Seq<char>, Seq<char>);

/// No key appears twice.
pub open spec fn keys_unique(s: Seq<Entry>) -> bool {
    forall|i: int, j: int|
        0 <= i < s.len() && 0 <= j < s.len() && #[trigger] s[i].0 == #[trigger] s[j].0 ==> i == j
}

pub open spec fn holds_key(s: Seq<Entry>, k: Seq<char>) -> bool {
    exists|i: int| 0 <= i < s.len() && s[i].0 == k
}

/// Where `k` stands, when it is present.
pub open spec fn position(s: Seq<Entry>, k: Seq<char>) -> int {
    choose|i: int| 0 <= i < s.len() && s[i].0 == k
}

/// The value stored under `k`.
pub open spec fn lookup(s: Seq<Entry>, k: Seq<char>) -> Option<Seq<char>> {
    if holds_key(s, k) {
        Some(s[position(s, k)].1)
    } else {
        None
    }
}

/// A read of `k`: a present key becomes the most recently used.
pub open spec fn touched(s: Seq<Entry>, k: Seq<char>) -> Seq<Entry> {
    if holds_key(s, k) {
        s.remove(position(s, k)).push(s[position(s, k)])
    } else {
        s
    }
}

/// The entries without `k`.
pub open spec fn without(s: Seq<Entry>, k: Seq<char>) -> Seq<Entry> {
    if holds_key(s, k) {
        s.remove(position(s, k))
    } else {
        s
    }
}

/// A write of `k -> v` into a cache of capacity `cap`: an existing key is
/// updated and becomes the most recently used; a new key is appended, after
/// the least recently used entry has been dropped if the cache is full.
pub open spec fn put_entry(s: Seq<Entry>, cap: nat, k: Seq<char>, v: Seq<char>) -> Seq<Entry> {
    if holds_key(s, k) {
        s.remove(position(s, k)).push((k, v))
    } else if s.len() >= cap {
        s.drop_first().push((k, v))
    } else {
        s.push((k, v))
    }
}

/// A well-formed cache state of capacity `cap`.
pub open spec fn valid(s: Seq<Entry>, cap: nat) -> bool {
    &&& keys_unique(s)
    &&& s.len() <= cap
    &&& cap > 0
}

pub proof fn lemma_position(s: Seq<Entry>, k: Seq<char>)
    requires
        holds_key(s, k),
    ensures
        0 <= position(s, k) < s.len(),
        s[position(s, k)].0 == k,
{
}

/// In a sequence with unique keys, the key found at `i` stands at `i`.
pub proof fn lemma_position_unique(s: Seq<Entry>, i: int)
    requires
        keys_unique(s),
        0 <= i < s.len(),
    ensures
        holds_key(s, s[i].0),
        position(s, s[i].0) == i,
{
    assert(holds_key(s, s[i].0));
    lemma_position(s, s[i].0);
}

/// Removing one entry keeps the keys unique.
pub proof fn lemma_remove_unique(s: Seq<Entry>, p: int)
    requires
        keys_unique(s),
        0 <= p < s.len(),
    ensures
        keys_unique(s.remove(p)),
        forall|k: Seq<char>| holds_key(s.remove(p), k) ==> holds_key(s, k) && k != s[p].0,
{
    let r = s.remove(p);
    assert forall|i: int, j: int|
        0 <= i < r.len() && 0 <= j < r.len() && #[trigger] r[i].0 == #[trigger] r[j].0 implies i == j by {
        let si = if i < p { i } else { i + 1 };
        let sj = if j < p { j } else { j + 1 };
        assert(r[i] == s[si]);
        assert(r[j] == s[sj]);
    }
    assert forall|k: Seq<char>| holds_key(r, k) implies holds_key(s, k) && k != s[p].0 by {
        let i = choose|i: int| 0 <= i < r.len() && r[i].0 == k;
        let si = if i < p { i } else { i + 1 };
        assert(r[i] == s[si]);
    }
}

/// Appending an absent key keeps the keys unique.
pub proof fn lemma_push_unique(s: Seq<Entry>, e: Entry)
    requires
        keys_unique(s),
        !holds_key(s, e.0),
    ensures
        keys_unique(s.push(e)),
        s.push(e).last() == e,
        forall|k: Seq<char>| holds_key(s.push(e), k) <==> holds_key(s, k) || k == e.0,
{
    let r = s.push(e);
    assert forall|i: int, j: int|
        0 <= i < r.len() && 0 <= j < r.len() && #[trigger] r[i].0 == #[trigger] r[j].0 implies i == j by {
        if i < s.len() && j < s.len() {
            assert(r[i] == s[i] && r[j] == s[j]);
        } else if i < s.len() {
            assert(r[i] == s[i]);
        } else if j < s.len() {
            assert(r[j] == s[j]);
        }
    }
    assert forall|k: Seq<char>| holds_key(r, k) <==> holds_key(s, k) || k == e.0 by {
        if holds_key(s, k) {
            let i = choose|i: int| 0 <= i < s.len() && s[i].0 == k;
            assert(r[i] == s[i]);
        }
        if k == e.0 {
            assert(r[s.len() as int] == e);
        }
        if holds_key(r, k) {
            let i = choose|i: int| 0 <= i < r.len() && r[i].0 == k;
            if i < s.len() {
                assert(r[i] == s[i]);
            }
        }
    }
}

/// A read keeps the state valid and the length; the key read, if present,
/// is afterwards the most recently used.
pub proof fn lemma_touched(s: Seq<Entry>, cap: nat, k: Seq<char>)
    requires
        valid(s, cap),
    ensures
        valid(touched(s, k), cap),
        touched(s, k).len() == s.len(),
        forall|x: Seq<char>| holds_key(touched(s, k), x) <==> holds_key(s, x),
        holds_key(s, k) ==> touched(s, k).last() == s[position(s, k)],
        holds_key(s, k) ==> touched(s, k).last().0 == k,
{
    if holds_key(s, k) {
        let p = position(s, k);
        lemma_position(s, k);
        lemma_remove_unique(s, p);
        lemma_push_unique(s.remove(p), s[p]);
        assert forall|x: Seq<char>| holds_key(s, x) implies holds_key(touched(s, k), x) by {
            let i = choose|i: int| 0 <= i < s.len() && s[i].0 == x;
            let t = touched(s, k);
            if i != p {
                let ri = if i < p { i } else { i - 1 };
                assert(s.remove(p)[ri] == s[i]);
                assert(t[ri] == s[i]);
            } else {
                assert(t[s.len() - 1] == s[p]);
            }
        }
    }
}

/// Reading the most recently used key changes nothing.
pub proof fn lemma_touch_last(s: Seq<Entry>, k: Seq<char>)
    requires
        keys_unique(s),
        s.len() > 0,
        s.last().0 == k,
    ensures
        touched(s, k) == s,
{
    lemma_position_unique(s, s.len() - 1);
    assert(touched(s, k) =~= s);
}

/// A removal keeps the state valid, and `k` is gone afterwards.
pub proof fn lemma_without(s: Seq<Entry>, cap: nat, k: Seq<char>)
    requires
        valid(s, cap),
    ensures
        valid(without(s, k), cap),
        !holds_key(without(s, k), k),
        forall|x: Seq<char>| x != k ==> (holds_key(without(s, k), x) <==> holds_key(s, x)),
{
    if holds_key(s, k) {
        let p = position(s, k);
        lemma_position(s, k);
        lemma_remove_unique(s, p);
        assert forall|x: Seq<char>| x != k && holds_key(s, x) implies holds_key(without(s, k), x) by {
            let i = choose|i: int| 0 <= i < s.len() && s[i].0 == x;
            let ri = if i < p { i } else { i - 1 };
            assert(s.remove(p)[ri] == s[i]);
        }
    }
}

/// A write keeps the state valid; the written entry is afterwards the most
/// recently used, and no other key is added.
pub proof fn lemma_put(s: Seq<Entry>, cap: nat, k: Seq<char>, v: Seq<char>)
    requires
        valid(s, cap),
    ensures
        valid(put_entry(s, cap, k, v), cap),
        put_entry(s, cap, k, v).last() == (k, v),
        holds_key(put_entry(s, cap, k, v), k),
        forall|x: Seq<char>| x != k && holds_key(put_entry(s, cap, k, v), x) ==> holds_key(s, x),
{
    if holds_key(s, k) {
        let p = position(s, k);
        lemma_position(s, k);
        lemma_remove_unique(s, p);
        lemma_push_unique(s.remove(p), (k, v));
    } else if s.len() >= cap {
        lemma_remove_unique(s, 0);
        assert(s.drop_first() =~= s.remove(0));
        lemma_push_unique(s.drop_first(), (k, v));
    } else {
        lemma_push_unique(s, (k, v));
    }
}

/// With the cache full, writing a key it does not hold evicts exactly the
/// least recently used entry: that key is gone, every other entry keeps its
/// value, the new entry is present, and the size stays at capacity.
pub proof fn lemma_eviction(s: Seq<Entry>, cap: nat, k: Seq<char>, v: Seq<char>)
    requires
        valid(s, cap),
        s.len() == cap,
        !holds_key(s, k),
    ensures
        ({
            let t = put_entry(s, cap, k, v);
            &&& t.len() == cap
            &&& !holds_key(t, s[0].0)
            &&& lookup(t, k) == Some(v)
            &&& forall|i: int| 1 <= i < s.len() ==> lookup(t, #[trigger] s[i].0) == Some(s[i].1)
        }),
{
    let t = put_entry(s, cap, k, v);
    lemma_put(s, cap, k, v);
    assert(t =~= s.drop_first().push((k, v)));
    lemma_position_unique(t, t.len() - 1);
    assert forall|i: int| 1 <= i < s.len() implies lookup(t, #[trigger] s[i].0) == Some(s[i].1) by {
        assert(t[i - 1] == s[i]);
        lemma_position_unique(t, i - 1);
    }
    if holds_key(t, s[0].0) {
        let j = choose|j: int| 0 <= j < t.len() && t[j].0 == s[0].0;
        if j < t.len() - 1 {
            assert(t[j] == s[j + 1]);
        } else {
            assert(s[0].0 != k);
        }
    }
}

} // verus!
