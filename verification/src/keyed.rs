use crate::json::{lemma_text_lt_total, lemma_text_lt_transitive, text_lt};
use vstd::prelude::*;

verus! {

/// Whether the keys ascend strictly.
pub open spec fn keys_ascending<V>(s: Seq<(Seq<char>, V)>) -> bool {
    forall|i: int, j: int| 0 <= i < j < s.len() ==> text_lt(#[trigger] s[i].0, #[trigger] s[j].0)
}

/// Index of the first entry for `key`, if any.
pub open spec fn key_index<V>(s: Seq<(Seq<char>, V)>, key: Seq<char>) -> Option<int> {
    if exists|i: int| 0 <= i < s.len() && (#[trigger] s[i]).0 == key {
        Some(
            choose|i: int|
                0 <= i < s.len() && s[i].0 == key && forall|j: int|
                    0 <= j < i ==> (#[trigger] s[j]).0 != key,
        )
    } else {
        None
    }
}

proof fn lemma_first_key<V>(s: Seq<(Seq<char>, V)>, key: Seq<char>, w: int)
    requires
        0 <= w < s.len(),
        s[w].0 == key,
    ensures
        exists|i: int| 0 <= i < s.len() && s[i].0 == key && forall|j: int| 0 <= j < i ==> (#[trigger] s[j]).0 != key,
    decreases w,
{
    if exists|j: int| 0 <= j < w && (#[trigger] s[j]).0 == key {
        let j = choose|j: int| 0 <= j < w && (#[trigger] s[j]).0 == key;
        lemma_first_key(s, key, j);
    } else {
        assert(0 <= w < s.len() && s[w].0 == key && forall|j: int| 0 <= j < w ==> (#[trigger] s[j]).0 != key);
    }
}

/// The index found for a key is in range, holds the key, and no earlier entry does.
pub proof fn lemma_key_index<V>(s: Seq<(Seq<char>, V)>, key: Seq<char>)
    ensures
        key_index(s, key) matches Some(i) ==> 0 <= i < s.len() && s[i].0 == key && forall|j: int|
            0 <= j < i ==> (#[trigger] s[j]).0 != key,
        key_index(s, key) is None ==> forall|i: int| 0 <= i < s.len() ==> (#[trigger] s[i]).0 != key,
{
    if exists|i: int| 0 <= i < s.len() && (#[trigger] s[i]).0 == key {
        let w = choose|i: int| 0 <= i < s.len() && (#[trigger] s[i]).0 == key;
        lemma_first_key(s, key, w);
    }
}

/// Where a new key goes: before the first greater key.
pub open spec fn key_slot<V>(s: Seq<(Seq<char>, V)>, key: Seq<char>) -> int {
    if exists|i: int| 0 <= i < s.len() && text_lt(key, (#[trigger] s[i]).0) {
        choose|i: int|
            0 <= i < s.len() && text_lt(key, s[i].0) && forall|j: int|
                0 <= j < i ==> !text_lt(key, (#[trigger] s[j]).0)
    } else {
        s.len() as int
    }
}

/// The slot of `key` is the first position whose key is greater.
pub proof fn lemma_slot_at<V>(v: Seq<(Seq<char>, V)>, key: Seq<char>, pos: int)
    requires
        0 <= pos <= v.len(),
        forall|j: int| 0 <= j < pos ==> !text_lt(key, (#[trigger] v[j]).0),
        pos < v.len() ==> text_lt(key, v[pos].0),
    ensures
        key_slot(v, key) == pos,
{
    if exists|i: int| 0 <= i < v.len() && text_lt(key, (#[trigger] v[i]).0) {
        let w = choose|w: int|
            0 <= w < v.len() && text_lt(key, v[w].0) && forall|j: int|
                0 <= j < w ==> !text_lt(key, (#[trigger] v[j]).0);
        if w < pos {
            assert(!text_lt(key, v[w].0));
        } else if w > pos {
            assert(!text_lt(key, v[pos].0));
        }
    }
}

/// Inserting a new key at its slot keeps the keys ascending.
pub proof fn lemma_insert_slot<V>(v: Seq<(Seq<char>, V)>, pos: int, key: Seq<char>, value: V)
    requires
        keys_ascending(v),
        key_index(v, key) is None,
        0 <= pos <= v.len(),
        forall|j: int| 0 <= j < pos ==> !text_lt(key, (#[trigger] v[j]).0),
        pos < v.len() ==> text_lt(key, v[pos].0),
    ensures
        key_slot(v, key) == pos,
        keys_ascending(v.insert(pos, (key, value))),
{
    if exists|i: int| 0 <= i < v.len() && text_lt(key, (#[trigger] v[i]).0) {
        let w = choose|w: int|
            0 <= w < v.len() && text_lt(key, v[w].0) && forall|j: int|
                0 <= j < w ==> !text_lt(key, (#[trigger] v[j]).0);
        if w < pos {
            assert(!text_lt(key, v[w].0));
        } else if w > pos {
            assert(!text_lt(key, v[pos].0));
        }
    }
    let nv = v.insert(pos, (key, value));
    assert forall|i: int, j: int| 0 <= i < j < nv.len() implies text_lt(
        #[trigger] nv[i].0,
        #[trigger] nv[j].0,
    ) by {
        if i < pos && j == pos {
            assert(v[i].0 != key);
            lemma_text_lt_total(v[i].0, key);
        } else if i < pos && j > pos {
            assert(v[i].0 != key);
            lemma_text_lt_total(v[i].0, key);
            if j - 1 > pos {
                assert(text_lt(v[pos].0, v[j - 1].0));
                lemma_text_lt_transitive(key, v[pos].0, v[j - 1].0);
            }
            lemma_text_lt_transitive(v[i].0, key, v[j - 1].0);
        } else if i == pos && j > pos {
            if j - 1 > pos {
                assert(text_lt(v[pos].0, v[j - 1].0));
                lemma_text_lt_transitive(key, v[pos].0, v[j - 1].0);
            }
        } else if i > pos {
            assert(text_lt(v[i - 1].0, v[j - 1].0));
        }
    }
}

/// Flattening one more part appends it.
pub proof fn lemma_flatten_step<A>(s: Seq<Seq<A>>, k: int)
    requires
        0 <= k < s.len(),
    ensures
        s.take(k + 1).flatten() == s.take(k).flatten() + s[k],
{
    assert(s.take(k + 1) =~= s.take(k).push(s[k]));
    s.take(k).lemma_flatten_push(s[k]);
}

/// Taking every part is the whole.
pub proof fn lemma_flatten_all<A>(s: Seq<Seq<A>>)
    ensures
        s.take(s.len() as int) == s,
{
    assert(s.take(s.len() as int) =~= s);
}

/// Whether texts ascend strictly.
pub open spec fn ascending(s: Seq<Seq<char>>) -> bool {
    forall|i: int, j: int| 0 <= i < j < s.len() ==> text_lt(#[trigger] s[i], #[trigger] s[j])
}

/// Where a new text goes in an ascending list: before the first greater text.
pub open spec fn text_slot(s: Seq<Seq<char>>, key: Seq<char>) -> int {
    if exists|i: int| 0 <= i < s.len() && text_lt(key, #[trigger] s[i]) {
        choose|i: int|
            0 <= i < s.len() && text_lt(key, s[i]) && forall|j: int| 0 <= j < i ==> !text_lt(key, #[trigger] s[j])
    } else {
        s.len() as int
    }
}

/// Inserting a new text at its slot keeps the list ascending.
pub proof fn lemma_text_insert(v: Seq<Seq<char>>, pos: int, key: Seq<char>)
    requires
        ascending(v),
        !v.contains(key),
        0 <= pos <= v.len(),
        forall|j: int| 0 <= j < pos ==> !text_lt(key, #[trigger] v[j]),
        pos < v.len() ==> text_lt(key, v[pos]),
    ensures
        text_slot(v, key) == pos,
        ascending(v.insert(pos, key)),
{
    if exists|i: int| 0 <= i < v.len() && text_lt(key, #[trigger] v[i]) {
        let w = choose|w: int|
            0 <= w < v.len() && text_lt(key, v[w]) && forall|j: int| 0 <= j < w ==> !text_lt(key, #[trigger] v[j]);
        if w < pos {
            assert(!text_lt(key, v[w]));
        } else if w > pos {
            assert(!text_lt(key, v[pos]));
        }
    }
    let nv = v.insert(pos, key);
    assert forall|i: int, j: int| 0 <= i < j < nv.len() implies text_lt(#[trigger] nv[i], #[trigger] nv[j]) by {
        if i < pos && j == pos {
            assert(v[i] != key);
            lemma_text_lt_total(v[i], key);
        } else if i < pos && j > pos {
            assert(v[i] != key);
            lemma_text_lt_total(v[i], key);
            if j - 1 > pos {
                assert(text_lt(v[pos], v[j - 1]));
                lemma_text_lt_transitive(key, v[pos], v[j - 1]);
            }
            lemma_text_lt_transitive(v[i], key, v[j - 1]);
        } else if i == pos && j > pos {
            if j - 1 > pos {
                assert(text_lt(v[pos], v[j - 1]));
                lemma_text_lt_transitive(key, v[pos], v[j - 1]);
            }
        } else if i > pos {
            assert(text_lt(v[i - 1], v[j - 1]));
        }
    }
}

/// Pushing adds the element to the set of elements.
pub proof fn lemma_push_to_set<A>(s: Seq<A>, x: A)
    ensures
        s.push(x).to_set() == s.to_set().insert(x),
{
    let p = s.push(x);
    assert forall|y: A| p.to_set().contains(y) <==> s.to_set().insert(x).contains(y) by {
        if p.contains(y) {
            let i = choose|i: int| 0 <= i < p.len() && p[i] == y;
            if i < s.len() {
                assert(s[i] == y);
            }
        }
        if s.contains(y) {
            let i = choose|i: int| 0 <= i < s.len() && s[i] == y;
            assert(p[i] == y);
        }
        if y == x {
            assert(p[s.len() as int] == x);
        }
    }
    assert(p.to_set() =~= s.to_set().insert(x));
}

/// `after` is `before` with the identifiers `added` (none of them in `before`).
pub open spec fn adds(before: Seq<Seq<char>>, after: Seq<Seq<char>>, added: Seq<Seq<char>>) -> bool {
    &&& after.len() == before.len() + added.len()
    &&& forall|y: Seq<char>| #[trigger] after.contains(y) <==> (before.contains(y) || added.contains(y))
}

/// What a sequence holds after an insertion.
pub proof fn lemma_insert_contains<A>(s: Seq<A>, i: int, x: A)
    requires
        0 <= i <= s.len(),
    ensures
        forall|y: A| #[trigger] s.insert(i, x).contains(y) <==> (s.contains(y) || y == x),
{
    let t = s.insert(i, x);
    assert forall|y: A| #[trigger] t.contains(y) <==> (s.contains(y) || y == x) by {
        if t.contains(y) {
            let k = choose|k: int| 0 <= k < t.len() && t[k] == y;
            if k < i {
                assert(s[k] == y);
            } else if k > i {
                assert(s[k - 1] == y);
            }
        }
        if s.contains(y) {
            let k = choose|k: int| 0 <= k < s.len() && s[k] == y;
            if k < i {
                assert(t[k] == y);
            } else {
                assert(t[k + 1] == y);
            }
        }
        if y == x {
            assert(t[i] == x);
        }
    }
}

} // verus!
