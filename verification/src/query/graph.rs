use crate::access::{id_texts, insert_id};
use crate::content::{DocumentStore, EnvelopeView};
use crate::ids::DocumentId;
use crate::json::{text_less, text_lt};
use crate::keyed::ascending;
use crate::json::lemma_text_lt_irreflexive;
use vstd::prelude::*;

verus! {

/// The reference graph of a store: for each document, the documents it references
/// (`outgoing`) and the documents that reference it (`incoming`).
#[derive(Debug)]
pub struct ProjectGraph {
    pub outgoing: Vec<(DocumentId, Vec<DocumentId>)>,
    pub incoming: Vec<(DocumentId, Vec<DocumentId>)>,
}

/// The `(key, member)` pairs of an adjacency list.
pub open spec fn adjacency_pairs(m: Seq<(DocumentId, Vec<DocumentId>)>) -> Set<(Seq<char>, Seq<char>)> {
    Set::new(
        |p: (Seq<char>, Seq<char>)|
            exists|i: int, j: int|
                0 <= i < m.len() && 0 <= j < m[i].1@.len() && (#[trigger] m[i]).0.view() == p.0
                    && (#[trigger] m[i].1@[j]).view() == p.1,
    )
}

/// The keys of an adjacency list.
pub open spec fn adjacency_keys(m: Seq<(DocumentId, Vec<DocumentId>)>) -> Set<Seq<char>> {
    Set::new(|k: Seq<char>| exists|i: int| 0 <= i < m.len() && (#[trigger] m[i]).0.view() == k)
}

/// Every member list ascends.
pub open spec fn lists_ascending(m: Seq<(DocumentId, Vec<DocumentId>)>) -> bool {
    forall|i: int| 0 <= i < m.len() ==> ascending(id_texts((#[trigger] m[i]).1@))
}

/// The `(source, target)` document pairs of a store's references.
pub open spec fn store_references(s: Seq<(Seq<char>, EnvelopeView)>) -> Set<(Seq<char>, Seq<char>)> {
    Set::new(
        |p: (Seq<char>, Seq<char>)|
            exists|i: int, j: int|
                0 <= i < s.len() && 0 <= j < s[i].1.references.len() && (#[trigger] s[i]).0 == p.0
                    && (#[trigger] s[i].1.references[j]).target_document == p.1,
    )
}

/// The identifiers under which a store holds documents.
pub open spec fn store_ids(s: Seq<(Seq<char>, EnvelopeView)>) -> Set<Seq<char>> {
    Set::new(|k: Seq<char>| exists|i: int| 0 <= i < s.len() && (#[trigger] s[i]).0 == k)
}

/// The reversed pairs.
pub open spec fn reversed(e: Set<(Seq<char>, Seq<char>)>) -> Set<(Seq<char>, Seq<char>)> {
    Set::new(|p: (Seq<char>, Seq<char>)| e.contains((p.1, p.0)))
}

/// The second members of the pairs.
pub open spec fn targets(e: Set<(Seq<char>, Seq<char>)>) -> Set<Seq<char>> {
    Set::new(|k: Seq<char>| exists|a: Seq<char>| e.contains((a, k)))
}

/// A path that starts at `path[0]` and steps from each element to one related to it.
pub open spec fn is_chain(e: Set<(Seq<char>, Seq<char>)>, path: Seq<Seq<char>>) -> bool {
    &&& path.len() >= 2
    &&& forall|k: int| 0 <= k < path.len() - 1 ==> e.contains((#[trigger] path[k], path[k + 1]))
}

/// `x` is reached from `t` in one or more steps along `e`.
pub open spec fn reached(e: Set<(Seq<char>, Seq<char>)>, t: Seq<char>, x: Seq<char>) -> bool {
    exists|path: Seq<Seq<char>>| #[trigger] is_chain(e, path) && path[0] == t && path.last() == x
}

fn find_key(m: &Vec<(DocumentId, Vec<DocumentId>)>, key: &DocumentId) -> (r: Option<usize>)
    ensures
        match r {
            Some(i) => i < m@.len() && m@[i as int].0.view() == key.view(),
            None => !adjacency_keys(m@).contains(key.view()),
        },
{
    let mut i: usize = 0;
    while i < m.len()
        invariant
            i <= m@.len(),
            forall|j: int| 0 <= j < i ==> (#[trigger] m@[j]).0.view() != key.view(),
        decreases m@.len() - i,
    {
        if m[i].0.same(key) {
            return Some(i);
        }
        i = i + 1;
    }
    None
}

fn add_key(m: &mut Vec<(DocumentId, Vec<DocumentId>)>, key: &DocumentId) -> (i: usize)
    requires
        lists_ascending(old(m)@),
    ensures
        lists_ascending(final(m)@),
        i < final(m)@.len(),
        final(m)@[i as int].0.view() == key.view(),
        adjacency_keys(final(m)@) == adjacency_keys(old(m)@).insert(key.view()),
        adjacency_pairs(final(m)@) == adjacency_pairs(old(m)@),
{
    match find_key(m, key) {
        Some(i) => {
            assert(adjacency_keys(m@).insert(key.view()) =~= adjacency_keys(m@));
            i
        },
        None => {
            let mut pos: usize = 0;
            while pos < m.len() && !text_less(key.as_str(), m[pos].0.as_str())
                invariant
                    pos <= m@.len(),
                decreases m@.len() - pos,
            {
                pos = pos + 1;
            }
            let ghost before = m@;
            let empty: Vec<DocumentId> = Vec::new();
            assert(id_texts(empty@) =~= Seq::<Seq<char>>::empty());
            m.insert(pos, (key.clone(), empty));
            proof {
                assert forall|j: int| 0 <= j < m@.len() implies ascending(id_texts((#[trigger] m@[j]).1@)) by {
                    if j < pos {
                        assert(m@[j] == before[j]);
                    } else if j > pos {
                        assert(m@[j] == before[j - 1]);
                    }
                }
                assert forall|k: Seq<char>| adjacency_keys(m@).contains(k) <==> adjacency_keys(before).insert(key.view()).contains(k) by {
                    if adjacency_keys(m@).contains(k) {
                        let i = choose|i: int| 0 <= i < m@.len() && (#[trigger] m@[i]).0.view() == k;
                        if i < pos {
                            assert(before[i] == m@[i]);
                        } else if i > pos {
                            assert(before[i - 1] == m@[i]);
                        }
                    }
                    if adjacency_keys(before).contains(k) {
                        let i = choose|i: int| 0 <= i < before.len() && (#[trigger] before[i]).0.view() == k;
                        if i < pos {
                            assert(m@[i] == before[i]);
                        } else {
                            assert(m@[i + 1] == before[i]);
                        }
                    }
                    if k == key.view() {
                        assert(m@[pos as int].0.view() == k);
                    }
                }
                assert(adjacency_keys(m@) =~= adjacency_keys(before).insert(key.view()));
                assert forall|p: (Seq<char>, Seq<char>)| adjacency_pairs(m@).contains(p) <==> adjacency_pairs(before).contains(p) by {
                    if adjacency_pairs(m@).contains(p) {
                        let (i, j) = choose|i: int, j: int|
                            0 <= i < m@.len() && 0 <= j < m@[i].1@.len() && (#[trigger] m@[i]).0.view() == p.0
                                && (#[trigger] m@[i].1@[j]).view() == p.1;
                        if i < pos {
                            assert(before[i] == m@[i]);
                        } else if i > pos {
                            assert(before[i - 1] == m@[i]);
                        }
                    }
                    if adjacency_pairs(before).contains(p) {
                        let (i, j) = choose|i: int, j: int|
                            0 <= i < before.len() && 0 <= j < before[i].1@.len() && (#[trigger] before[i]).0.view()
                                == p.0 && (#[trigger] before[i].1@[j]).view() == p.1;
                        if i < pos {
                            assert(m@[i] == before[i]);
                        } else {
                            assert(m@[i + 1] == before[i]);
                        }
                    }
                }
                assert(adjacency_pairs(m@) =~= adjacency_pairs(before));
            }
            pos
        },
    }
}

fn add_pair(m: &mut Vec<(DocumentId, Vec<DocumentId>)>, key: &DocumentId, member: &DocumentId)
    requires
        lists_ascending(old(m)@),
    ensures
        lists_ascending(final(m)@),
        adjacency_keys(final(m)@) == adjacency_keys(old(m)@).insert(key.view()),
        adjacency_pairs(final(m)@) == adjacency_pairs(old(m)@).insert((key.view(), member.view())),
{
    let i = add_key(m, key);
    let ghost before = m@;
    let (k, mut list) = m.remove(i);
    let ghost old_list = id_texts(list@);
    assert(ascending(id_texts(before[i as int].1@)));
    insert_id(&mut list, member.clone());
    m.insert(i, (k, list));
    proof {
        assert(m@ == before.update(i as int, m@[i as int]));
        assert forall|j: int| 0 <= j < m@.len() implies ascending(id_texts((#[trigger] m@[j]).1@)) by {
            if j != i {
                assert(m@[j] == before[j]);
            }
        }
        assert forall|q: Seq<char>| adjacency_keys(m@).contains(q) <==> adjacency_keys(before).contains(q) by {
            if adjacency_keys(m@).contains(q) {
                let a = choose|a: int| 0 <= a < m@.len() && (#[trigger] m@[a]).0.view() == q;
                if a != i {
                    assert(before[a] == m@[a]);
                } else {
                    assert(before[a].0 == m@[a].0);
                }
            }
            if adjacency_keys(before).contains(q) {
                let a = choose|a: int| 0 <= a < before.len() && (#[trigger] before[a]).0.view() == q;
                if a != i {
                    assert(before[a] == m@[a]);
                } else {
                    assert(before[a].0 == m@[a].0);
                }
            }
        }
        assert(adjacency_keys(m@) =~= adjacency_keys(before));
        let np = (key.view(), member.view());
        assert forall|p: (Seq<char>, Seq<char>)| adjacency_pairs(m@).contains(p) <==> adjacency_pairs(before).insert(np).contains(p) by {
            if adjacency_pairs(m@).contains(p) {
                let (a, c) = choose|a: int, c: int|
                    0 <= a < m@.len() && 0 <= c < m@[a].1@.len() && (#[trigger] m@[a]).0.view() == p.0
                        && (#[trigger] m@[a].1@[c]).view() == p.1;
                if a != i {
                    assert(before[a] == m@[a]);
                } else {
                    assert(id_texts(m@[a].1@).contains(p.1)) by {
                        assert(id_texts(m@[a].1@)[c] == p.1);
                    }
                    assert(id_texts(m@[a].1@).to_set().contains(p.1));
                    if p.1 != member.view() {
                        assert(old_list.to_set().contains(p.1));
                        let c2 = choose|c2: int| 0 <= c2 < old_list.len() && old_list[c2] == p.1;
                        assert(before[a].1@[c2].view() == p.1);
                    }
                }
            }
            if adjacency_pairs(before).contains(p) {
                let (a, c) = choose|a: int, c: int|
                    0 <= a < before.len() && 0 <= c < before[a].1@.len() && (#[trigger] before[a]).0.view() == p.0
                        && (#[trigger] before[a].1@[c]).view() == p.1;
                if a != i {
                    assert(before[a] == m@[a]);
                } else {
                    assert(old_list[c] == p.1);
                    assert(old_list.to_set().contains(p.1));
                    assert(id_texts(m@[a].1@).to_set().contains(p.1));
                    let c2 = choose|c2: int| 0 <= c2 < id_texts(m@[a].1@).len() && id_texts(m@[a].1@)[c2] == p.1;
                    assert(m@[a].1@[c2].view() == p.1);
                }
            }
            if p == np {
                assert(id_texts(m@[i as int].1@).to_set().contains(member.view()));
                let c2 = choose|c2: int| 0 <= c2 < id_texts(m@[i as int].1@).len() && id_texts(m@[i as int].1@)[c2] == member.view();
                assert(m@[i as int].1@[c2].view() == member.view());
                assert(m@[i as int].0.view() == key.view());
            }
        }
        assert(adjacency_pairs(m@) =~= adjacency_pairs(before).insert(np));
    }
}

impl ProjectGraph {
    /// The reference graph of `store`.
    pub fn build(store: &DocumentStore) -> (g: Self)
        ensures
            lists_ascending(g.outgoing@),
            lists_ascending(g.incoming@),
            adjacency_pairs(g.outgoing@) == store_references(store.view()),
            adjacency_pairs(g.incoming@) == reversed(store_references(store.view())),
            adjacency_keys(g.outgoing@) == store_ids(store.view()),
            adjacency_keys(g.incoming@) == store_ids(store.view()).union(targets(store_references(store.view()))),
    {
        let entries = store.iter();
        let ghost s = store.view();
        let mut outgoing: Vec<(DocumentId, Vec<DocumentId>)> = Vec::new();
        let mut incoming: Vec<(DocumentId, Vec<DocumentId>)> = Vec::new();
        assert(adjacency_pairs(outgoing@) =~= Set::empty());
        assert(adjacency_pairs(incoming@) =~= Set::empty());
        assert(adjacency_keys(outgoing@) =~= Set::empty());
        assert(adjacency_keys(incoming@) =~= Set::empty());
        let mut n: usize = 0;
        while n < entries.len()
            invariant
                crate::content::store_view(entries@) == s,
                n <= entries@.len(),
                lists_ascending(outgoing@),
                lists_ascending(incoming@),
                adjacency_pairs(outgoing@) == refs_before(s, n as int, 0),
                adjacency_pairs(incoming@) == reversed(refs_before(s, n as int, 0)),
                adjacency_keys(outgoing@) == ids_before(s, n as int),
                adjacency_keys(incoming@) == ids_before(s, n as int).union(targets(refs_before(s, n as int, 0))),
            decreases entries@.len() - n,
        {
            let id = &entries[n].0;
            let document = &entries[n].1;
            proof {
                crate::content::lemma_view_references(*document);
                assert(s[n as int].0 == id.view());
            }
            add_key(&mut outgoing, id);
            add_key(&mut incoming, id);
            proof {
                assert(ids_before(s, n as int + 1) =~= ids_before(s, n as int).insert(id.view()));
                assert(ids_before(s, n as int).union(targets(refs_before(s, n as int, 0))).insert(id.view())
                    =~= ids_before(s, n as int + 1).union(targets(refs_before(s, n as int, 0))));
            }
            let mut j: usize = 0;
            while j < document.references.len()
                invariant
                    crate::content::store_view(entries@) == s,
                    n < entries@.len(),
                    *document == entries@[n as int].1,
                    s[n as int].0 == id.view(),
                    s[n as int].1.references == crate::content::references_view(document.references@),
                    j <= document.references@.len(),
                    lists_ascending(outgoing@),
                    lists_ascending(incoming@),
                    adjacency_pairs(outgoing@) == refs_before(s, n as int, j as int),
                    adjacency_pairs(incoming@) == reversed(refs_before(s, n as int, j as int)),
                    adjacency_keys(outgoing@) == ids_before(s, n as int + 1),
                    adjacency_keys(incoming@) == ids_before(s, n as int + 1).union(targets(refs_before(s, n as int, j as int))),
                decreases document.references@.len() - j,
            {
                let target = &document.references[j].target_document;
                proof {
                    assert(s[n as int].1.references[j as int].target_document == target.view());
                }
                add_pair(&mut outgoing, id, target);
                add_pair(&mut incoming, target, id);
                proof {
                    lemma_refs_step(s, n as int, j as int);
                    let p = (id.view(), target.view());
                    assert(reversed(refs_before(s, n as int, j as int)).insert((target.view(), id.view()))
                        =~= reversed(refs_before(s, n as int, j as int + 1)));
                    lemma_targets_insert(refs_before(s, n as int, j as int), p);
                    assert(ids_before(s, n as int + 1).union(targets(refs_before(s, n as int, j as int))).insert(target.view())
                        =~= ids_before(s, n as int + 1).union(targets(refs_before(s, n as int, j as int + 1))));
                }
                j = j + 1;
            }
            proof {
                lemma_refs_next(s, n as int);
            }
            n = n + 1;
        }
        proof {
            lemma_refs_all(s);
        }
        ProjectGraph { outgoing, incoming }
    }
}

/// The identifiers of the first `n` entries.
pub open spec fn ids_before(s: Seq<(Seq<char>, EnvelopeView)>, n: int) -> Set<Seq<char>> {
    Set::new(|k: Seq<char>| exists|i: int| 0 <= i < n && i < s.len() && (#[trigger] s[i]).0 == k)
}

/// The reference pairs of the first `n` entries and the first `j` references of entry `n`.
pub open spec fn refs_before(s: Seq<(Seq<char>, EnvelopeView)>, n: int, j: int) -> Set<(Seq<char>, Seq<char>)> {
    Set::new(
        |p: (Seq<char>, Seq<char>)|
            exists|i: int, r: int|
                0 <= i < s.len() && 0 <= r < s[i].1.references.len() && (i < n || (i == n && r < j))
                    && (#[trigger] s[i]).0 == p.0 && (#[trigger] s[i].1.references[r]).target_document == p.1,
    )
}

proof fn lemma_targets_insert(e: Set<(Seq<char>, Seq<char>)>, p: (Seq<char>, Seq<char>))
    ensures
        targets(e.insert(p)) == targets(e).insert(p.1),
{
    assert forall|k: Seq<char>| targets(e.insert(p)).contains(k) <==> targets(e).insert(p.1).contains(k) by {
        if targets(e.insert(p)).contains(k) {
            let a = choose|a: Seq<char>| e.insert(p).contains((a, k));
            if (a, k) != p {
                assert(e.contains((a, k)));
            }
        }
        if targets(e).contains(k) {
            let a = choose|a: Seq<char>| e.contains((a, k));
            assert(e.insert(p).contains((a, k)));
        }
        if k == p.1 {
            assert(e.insert(p).contains((p.0, k)));
        }
    }
    assert(targets(e.insert(p)) =~= targets(e).insert(p.1));
}

proof fn lemma_refs_step(s: Seq<(Seq<char>, EnvelopeView)>, n: int, j: int)
    requires
        0 <= n < s.len(),
        0 <= j < s[n].1.references.len(),
    ensures
        refs_before(s, n, j + 1) == refs_before(s, n, j).insert((s[n].0, s[n].1.references[j].target_document)),
{
    let p0 = (s[n].0, s[n].1.references[j].target_document);
    assert forall|p: (Seq<char>, Seq<char>)| refs_before(s, n, j + 1).contains(p) <==> refs_before(s, n, j).insert(p0).contains(p) by {
        if refs_before(s, n, j + 1).contains(p) {
            let (i, r) = choose|i: int, r: int|
                0 <= i < s.len() && 0 <= r < s[i].1.references.len() && (i < n || (i == n && r < j + 1))
                    && (#[trigger] s[i]).0 == p.0 && (#[trigger] s[i].1.references[r]).target_document == p.1;
            if !(i == n && r == j) {
                assert(refs_before(s, n, j).contains(p));
            }
        }
        if p == p0 {
            assert(s[n].1.references[j].target_document == p.1);
        }
    }
    assert(refs_before(s, n, j + 1) =~= refs_before(s, n, j).insert(p0));
}

proof fn lemma_refs_next(s: Seq<(Seq<char>, EnvelopeView)>, n: int)
    requires
        0 <= n < s.len(),
    ensures
        refs_before(s, n, s[n].1.references.len() as int) == refs_before(s, n + 1, 0),
{
    assert forall|p: (Seq<char>, Seq<char>)| refs_before(s, n, s[n].1.references.len() as int).contains(p) <==> refs_before(s, n + 1, 0).contains(p) by {
        if refs_before(s, n, s[n].1.references.len() as int).contains(p) {
            let (i, r) = choose|i: int, r: int|
                0 <= i < s.len() && 0 <= r < s[i].1.references.len() && (i < n || (i == n && r < s[n].1.references.len()))
                    && (#[trigger] s[i]).0 == p.0 && (#[trigger] s[i].1.references[r]).target_document == p.1;
            assert(refs_before(s, n + 1, 0).contains(p));
        }
        if refs_before(s, n + 1, 0).contains(p) {
            let (i, r) = choose|i: int, r: int|
                0 <= i < s.len() && 0 <= r < s[i].1.references.len() && (i < n + 1 || (i == n + 1 && r < 0))
                    && (#[trigger] s[i]).0 == p.0 && (#[trigger] s[i].1.references[r]).target_document == p.1;
            assert(refs_before(s, n, s[n].1.references.len() as int).contains(p));
        }
    }
    assert(refs_before(s, n, s[n].1.references.len() as int) =~= refs_before(s, n + 1, 0));
}

proof fn lemma_refs_all(s: Seq<(Seq<char>, EnvelopeView)>)
    ensures
        refs_before(s, s.len() as int, 0) == store_references(s),
        ids_before(s, s.len() as int) == store_ids(s),
{
    assert(refs_before(s, s.len() as int, 0) =~= store_references(s));
    assert(ids_before(s, s.len() as int) =~= store_ids(s));
}

/// Extending a chain by one more step gives a chain.
proof fn lemma_chain_push(e: Set<(Seq<char>, Seq<char>)>, path: Seq<Seq<char>>, x: Seq<char>)
    requires
        is_chain(e, path),
        e.contains((path.last(), x)),
    ensures
        is_chain(e, path.push(x)),
{
    let q = path.push(x);
    assert forall|k: int| 0 <= k < q.len() - 1 implies e.contains((#[trigger] q[k], q[k + 1])) by {
        if k < path.len() - 1 {
            assert(q[k] == path[k] && q[k + 1] == path[k + 1]);
        } else {
            assert(q[k] == path.last() && q[k + 1] == x);
        }
    }
}

/// Whatever a chain from `t` reaches lies in any set that holds the successors of `t` and
/// of each of its own members.
proof fn lemma_chain_closed(e: Set<(Seq<char>, Seq<char>)>, v: Set<Seq<char>>, t: Seq<char>, path: Seq<Seq<char>>)
    requires
        forall|x: Seq<char>| e.contains((t, x)) ==> v.contains(x),
        forall|a: Seq<char>, x: Seq<char>| v.contains(a) && e.contains((a, x)) ==> v.contains(x),
        is_chain(e, path),
        path[0] == t,
    ensures
        v.contains(path.last()),
    decreases path.len(),
{
    if path.len() == 2 {
        assert(e.contains((path[0], path[1])));
    } else {
        let shorter = path.drop_last();
        assert forall|k: int| 0 <= k < shorter.len() - 1 implies e.contains((#[trigger] shorter[k], shorter[k + 1])) by {
            assert(shorter[k] == path[k] && shorter[k + 1] == path[k + 1]);
        }
        lemma_chain_closed(e, v, t, shorter);
        assert(e.contains((path[path.len() - 2], path[path.len() - 1])));
    }
}

fn contains_id(ids: &Vec<DocumentId>, id: &DocumentId) -> (r: bool)
    ensures
        r == id_texts(ids@).contains(id.view()),
{
    let mut i: usize = 0;
    while i < ids.len()
        invariant
            i <= ids@.len(),
            forall|j: int| 0 <= j < i ==> (#[trigger] ids@[j]).view() != id.view(),
        decreases ids@.len() - i,
    {
        if ids[i].same(id) {
            assert(id_texts(ids@)[i as int] == id.view());
            return true;
        }
        i = i + 1;
    }
    proof {
        if id_texts(ids@).contains(id.view()) {
            let j = choose|j: int| 0 <= j < id_texts(ids@).len() && id_texts(ids@)[j] == id.view();
            assert(ids@[j].view() != id.view());
        }
    }
    false
}

fn all_members(m: &Vec<(DocumentId, Vec<DocumentId>)>) -> (u: Vec<DocumentId>)
    ensures
        ascending(id_texts(u@)),
        id_texts(u@).to_set() == targets(adjacency_pairs(m@)),
{
    let ghost e = adjacency_pairs(m@);
    let mut u: Vec<DocumentId> = Vec::new();
    assert(id_texts(u@) =~= Seq::<Seq<char>>::empty());
    let mut i: usize = 0;
    while i < m.len()
        invariant
            e == adjacency_pairs(m@),
            i <= m@.len(),
            ascending(id_texts(u@)),
            id_texts(u@).to_set() == Set::new(|k: Seq<char>| exists|a: int, c: int|
                0 <= a < i && 0 <= c < m@[a].1@.len() && (#[trigger] m@[a].1@[c]).view() == k),
        decreases m@.len() - i,
    {
        let mut c: usize = 0;
        while c < m[i].1.len()
            invariant
                e == adjacency_pairs(m@),
                i < m@.len(),
                c <= m@[i as int].1@.len(),
                ascending(id_texts(u@)),
                id_texts(u@).to_set() == Set::new(|k: Seq<char>| exists|a: int, c2: int|
                    0 <= a < m@.len() && 0 <= c2 < m@[a].1@.len() && (a < i || (a == i && c2 < c))
                        && (#[trigger] m@[a].1@[c2]).view() == k),
            decreases m@[i as int].1@.len() - c,
        {
            let ghost before = id_texts(u@).to_set();
            insert_id(&mut u, m[i].1[c].clone());
            assert(id_texts(u@).to_set() =~= Set::new(|k: Seq<char>| exists|a: int, c2: int|
                0 <= a < m@.len() && 0 <= c2 < m@[a].1@.len() && (a < i || (a == i && c2 < c + 1))
                    && (#[trigger] m@[a].1@[c2]).view() == k)) by {
                assert forall|k: Seq<char>| id_texts(u@).to_set().contains(k) implies (exists|a: int, c2: int|
                    0 <= a < m@.len() && 0 <= c2 < m@[a].1@.len() && (a < i || (a == i && c2 < c + 1))
                        && (#[trigger] m@[a].1@[c2]).view() == k) by {
                    if k == m@[i as int].1@[c as int].view() {
                        assert(m@[i as int].1@[c as int].view() == k);
                    } else {
                        assert(before.contains(k));
                    }
                }
            }
            c = c + 1;
        }
        assert(Set::new(|k: Seq<char>| exists|a: int, c2: int|
            0 <= a < m@.len() && 0 <= c2 < m@[a].1@.len() && (a < i || (a == i && c2 < m@[i as int].1@.len()))
                && (#[trigger] m@[a].1@[c2]).view() == k) =~= Set::new(|k: Seq<char>| exists|a: int, c2: int|
            0 <= a < i + 1 && 0 <= c2 < m@[a].1@.len() && (#[trigger] m@[a].1@[c2]).view() == k));
        i = i + 1;
    }
    proof {
        assert forall|k: Seq<char>| id_texts(u@).to_set().contains(k) <==> targets(e).contains(k) by {
            if id_texts(u@).to_set().contains(k) {
                let (a, c) = choose|a: int, c: int| 0 <= a < m@.len() && 0 <= c < m@[a].1@.len() && (#[trigger] m@[a].1@[c]).view() == k;
                assert(e.contains((m@[a].0.view(), k)));
            }
            if targets(e).contains(k) {
                let x = choose|x: Seq<char>| e.contains((x, k));
                let (a, c) = choose|a: int, c: int|
                    0 <= a < m@.len() && 0 <= c < m@[a].1@.len() && (#[trigger] m@[a]).0.view() == x
                        && (#[trigger] m@[a].1@[c]).view() == k;
                assert(0 <= a < m@.len() && 0 <= c < m@[a].1@.len() && m@[a].1@[c].view() == k);
            }
        }
        assert(id_texts(u@).to_set() =~= targets(e));
    }
    u
}

/// The successors of `a` in `e`.
pub open spec fn successors(e: Set<(Seq<char>, Seq<char>)>, a: Seq<char>) -> Set<Seq<char>> {
    Set::new(|x: Seq<char>| e.contains((a, x)))
}

/// The successors of `a` found in the first `i` entries (and the first `c` members of entry
/// `i`).
pub open spec fn successors_before(m: Seq<(DocumentId, Vec<DocumentId>)>, a: Seq<char>, i: int, c: int) -> Set<Seq<char>> {
    Set::new(
        |x: Seq<char>|
            exists|k: int, d: int|
                0 <= k < m.len() && 0 <= d < m[k].1@.len() && (k < i || (k == i && d < c)) && (#[trigger] m[k]).0.view() == a
                    && (#[trigger] m[k].1@[d]).view() == x,
    )
}

/// What visiting a node keeps: earlier queue entries stay, each new entry is a newly
/// visited successor, and every newly visited identifier is queued.
pub open spec fn visit_keeps(
    old_visited: Seq<DocumentId>,
    old_queue: Seq<DocumentId>,
    visited: Seq<DocumentId>,
    queue: Seq<DocumentId>,
    e: Set<(Seq<char>, Seq<char>)>,
    a: Seq<char>,
) -> bool {
    &&& ascending(id_texts(visited))
    &&& queue.len() - old_queue.len() == visited.len() - old_visited.len()
    &&& queue.len() >= old_queue.len()
    &&& forall|k: int| 0 <= k < old_queue.len() ==> queue[k] == old_queue[k]
    &&& forall|k: int| old_queue.len() <= k < queue.len() ==> id_texts(visited).contains((#[trigger] queue[k]).view())
        && e.contains((a, queue[k].view()))
    &&& forall|x: Seq<char>| id_texts(visited).contains(x) && !id_texts(old_visited).contains(x) ==> exists|k: int|
        old_queue.len() <= k < queue.len() && (#[trigger] queue[k]).view() == x
}

impl ProjectGraph {
    #[verifier::rlimit(60)]
    fn visit(&self, current: &DocumentId, visited: &mut Vec<DocumentId>, queue: &mut Vec<DocumentId>)
        requires
            ascending(id_texts(old(visited)@)),
        ensures
            visit_keeps(old(visited)@, old(queue)@, final(visited)@, final(queue)@, adjacency_pairs(self.incoming@), current.view()),
            id_texts(final(visited)@).to_set() == id_texts(old(visited)@).to_set().union(
                successors(adjacency_pairs(self.incoming@), current.view()),
            ),
    {
        let ghost e = adjacency_pairs(self.incoming@);
        let ghost m = self.incoming@;
        let ghost a = current.view();
        let ghost v0 = visited@;
        let ghost q0 = queue@;
        let mut i: usize = 0;
        assert(successors_before(m, a, 0, 0) =~= Set::empty());
        assert(id_texts(visited@).to_set().union(Set::empty()) =~= id_texts(visited@).to_set());
        while i < self.incoming.len()
            invariant
                m == self.incoming@,
                e == adjacency_pairs(m),
                a == current.view(),
                i <= m.len(),
                visit_keeps(v0, q0, visited@, queue@, e, a),
                id_texts(visited@).to_set() == id_texts(v0).to_set().union(successors_before(m, a, i as int, 0)),
            decreases m.len() - i,
        {
            if self.incoming[i].0.same(current) {
                let mut c: usize = 0;
                while c < self.incoming[i].1.len()
                    invariant
                        m == self.incoming@,
                        e == adjacency_pairs(m),
                        a == current.view(),
                        i < m.len(),
                        m[i as int].0.view() == a,
                        c <= m[i as int].1@.len(),
                        visit_keeps(v0, q0, visited@, queue@, e, a),
                        id_texts(visited@).to_set() == id_texts(v0).to_set().union(successors_before(m, a, i as int, c as int)),
                    decreases m[i as int].1@.len() - c,
                {
                    let x = &self.incoming[i].1[c];
                    proof {
                        assert(e.contains((a, x.view())));
                    }
                    let ghost vb = visited@;
                    let ghost qb = queue@;
                    if !contains_id(visited, x) {
                        insert_id(visited, x.clone());
                        queue.push(x.clone());
                        proof {
                            assert(queue@[queue@.len() - 1].view() == x.view());
                            assert forall|y: Seq<char>| id_texts(visited@).contains(y) && !id_texts(v0).contains(y) implies exists|k: int|
                                q0.len() <= k < queue@.len() && (#[trigger] queue@[k]).view() == y by {
                                assert(id_texts(visited@).to_set().contains(y));
                                if y == x.view() {
                                    assert(queue@[queue@.len() - 1].view() == y);
                                } else {
                                    assert(id_texts(vb).to_set().contains(y));
                                    assert(id_texts(vb).contains(y));
                                    let k = choose|k: int| q0.len() <= k < qb.len() && (#[trigger] qb[k]).view() == y;
                                    assert(queue@[k] == qb[k]);
                                }
                            }
                            assert forall|k: int| q0.len() <= k < queue@.len() implies id_texts(visited@).contains((#[trigger] queue@[k]).view())
                                && e.contains((a, queue@[k].view())) by {
                                if k < qb.len() {
                                    assert(queue@[k] == qb[k]);
                                    assert(id_texts(vb).contains(qb[k].view()));
                                    assert(id_texts(vb).to_set().contains(qb[k].view()));
                                    assert(id_texts(visited@).to_set().contains(qb[k].view()));
                                } else {
                                    assert(id_texts(visited@).to_set().contains(x.view()));
                                }
                            }
                        }
                    }
                    proof {
                        assert(successors_before(m, a, i as int, c as int + 1) =~= successors_before(m, a, i as int, c as int).insert(x.view())) by {
                            assert forall|y: Seq<char>| successors_before(m, a, i as int, c as int + 1).contains(y) implies successors_before(m, a, i as int, c as int).insert(x.view()).contains(y) by {
                                let (k, d) = choose|k: int, d: int|
                                    0 <= k < m.len() && 0 <= d < m[k].1@.len() && (k < i || (k == i && d < c + 1)) && (#[trigger] m[k]).0.view() == a
                                        && (#[trigger] m[k].1@[d]).view() == y;
                                if !(k == i && d == c) {
                                    assert(successors_before(m, a, i as int, c as int).contains(y));
                                }
                            }
                            assert(m[i as int].1@[c as int].view() == x.view());
                        }
                        assert(id_texts(visited@).to_set() =~= id_texts(v0).to_set().union(successors_before(m, a, i as int, c as int + 1)));
                    }
                    c = c + 1;
                }
                proof {
                    assert(successors_before(m, a, i as int, m[i as int].1@.len() as int) =~= successors_before(m, a, i as int + 1, 0));
                }
            } else {
                proof {
                    assert(successors_before(m, a, i as int, 0) =~= successors_before(m, a, i as int + 1, 0));
                }
            }
            i = i + 1;
        }
        proof {
            assert(successors_before(m, a, m.len() as int, 0) =~= successors(e, a)) by {
                assert forall|y: Seq<char>| successors(e, a).contains(y) implies successors_before(m, a, m.len() as int, 0).contains(y) by {
                    let (k, d) = choose|k: int, d: int|
                        0 <= k < m.len() && 0 <= d < m[k].1@.len() && (#[trigger] m[k]).0.view() == a
                            && (#[trigger] m[k].1@[d]).view() == y;
                    assert(0 <= k < m.len() && 0 <= d < m[k].1@.len() && m[k].0.view() == a && m[k].1@[d].view() == y);
                }
            }
        }
    }
}

proof fn lemma_visited_bound(visited: Seq<DocumentId>, u: Seq<DocumentId>)
    requires
        ascending(id_texts(visited)),
        id_texts(visited).to_set().subset_of(id_texts(u).to_set()),
    ensures
        visited.len() <= u.len(),
{
    let v = id_texts(visited);
    assert(v.no_duplicates()) by {
        assert forall|i: int, j: int| 0 <= i < v.len() && 0 <= j < v.len() && i != j implies v[i] != v[j] by {
            if i < j {
                assert(text_lt(v[i], v[j]));
            } else {
                assert(text_lt(v[j], v[i]));
            }
            crate::json::lemma_text_lt_irreflexive(v[i]);
        }
    }
    v.unique_seq_to_set();
    id_texts(u).lemma_cardinality_of_set();
    vstd::set_lib::lemma_len_subset(v.to_set(), id_texts(u).to_set());
}

impl ProjectGraph {
    /// Every document that depends on `target` through one or more references, in
    /// ascending order.
    pub fn impact(&self, target: &DocumentId) -> (r: Vec<DocumentId>)
        ensures
            ascending(id_texts(r@)),
            id_texts(r@).to_set() == Set::new(|x: Seq<char>| reached(adjacency_pairs(self.incoming@), target.view(), x)),
    {
        let ghost e = adjacency_pairs(self.incoming@);
        let ghost t = target.view();
        let universe = all_members(&self.incoming);
        let mut visited: Vec<DocumentId> = Vec::new();
        let mut queue: Vec<DocumentId> = Vec::new();
        queue.push(target.clone());
        assert(id_texts(visited@) =~= Seq::<Seq<char>>::empty());
        let mut h: usize = 0;
        while h < queue.len()
            invariant
                e == adjacency_pairs(self.incoming@),
                t == target.view(),
                ascending(id_texts(universe@)),
                id_texts(universe@).to_set() == targets(e),
                ascending(id_texts(visited@)),
                id_texts(visited@).to_set().subset_of(targets(e)),
                queue@.len() == visited@.len() + 1,
                queue@[0].view() == t,
                0 <= h <= queue@.len(),
                forall|k: int| 1 <= k < queue@.len() ==> id_texts(visited@).contains((#[trigger] queue@[k]).view()),
                forall|x: Seq<char>| id_texts(visited@).contains(x) ==> exists|k: int| 1 <= k < queue@.len() && (#[trigger] queue@[k]).view() == x,
                forall|x: Seq<char>| id_texts(visited@).contains(x) ==> reached(e, t, x),
                forall|k: int, x: Seq<char>| 0 <= k < h && #[trigger] e.contains((queue@[k].view(), x)) ==> id_texts(visited@).contains(x),
            decreases universe@.len() - visited@.len(), queue@.len() - h,
        {
            let current = queue[h].clone();
            let ghost v0 = visited@;
            let ghost q0 = queue@;
            proof {
                lemma_visited_bound(visited@, universe@);
            }
            self.visit(&current, &mut visited, &mut queue);
            proof {
                let a = current.view();
                assert(a == q0[h as int].view());
                assert forall|x: Seq<char>| id_texts(visited@).contains(x) implies reached(e, t, x) by {
                    assert(id_texts(visited@).to_set().contains(x));
                    if !id_texts(v0).contains(x) {
                        assert(successors(e, a).contains(x));
                        assert(e.contains((a, x)));
                        if h == 0 {
                            let path = seq![t, x];
                            assert(is_chain(e, path)) by {
                                assert forall|k: int| 0 <= k < path.len() - 1 implies e.contains((#[trigger] path[k], path[k + 1])) by {
                                    assert(path[0] == t && path[1] == x);
                                }
                            }
                            assert(path[0] == t && path.last() == x);
                        } else {
                            assert(id_texts(v0).contains(a));
                            assert(reached(e, t, a));
                            let path = choose|path: Seq<Seq<char>>| #[trigger] is_chain(e, path) && path[0] == t && path.last() == a;
                            assert(is_chain(e, path));
                            lemma_chain_push(e, path, x);
                            assert(path.push(x)[0] == path[0]);
                            assert(path.push(x)[0] == t && path.push(x).last() == x);
                        }
                    } else {
                        assert(id_texts(v0).contains(x));
                    }
                }
                assert forall|k: int| 1 <= k < queue@.len() implies id_texts(visited@).contains((#[trigger] queue@[k]).view()) by {
                    if k < q0.len() {
                        assert(queue@[k] == q0[k]);
                        assert(id_texts(v0).to_set().contains(q0[k].view()));
                        assert(id_texts(visited@).to_set().contains(q0[k].view()));
                    }
                }
                assert forall|x: Seq<char>| id_texts(visited@).contains(x) implies exists|k: int| 1 <= k < queue@.len() && (#[trigger] queue@[k]).view() == x by {
                    if id_texts(v0).contains(x) {
                        let k = choose|k: int| 1 <= k < q0.len() && (#[trigger] q0[k]).view() == x;
                        assert(queue@[k] == q0[k]);
                    }
                }
                assert forall|k: int, x: Seq<char>| 0 <= k < h + 1 && #[trigger] e.contains((queue@[k].view(), x)) implies id_texts(visited@).contains(x) by {
                    assert(queue@[k] == q0[k]);
                    if k < h {
                        assert(id_texts(v0).to_set().contains(x));
                    } else {
                        assert(successors(e, a).contains(x));
                    }
                    assert(id_texts(visited@).to_set().contains(x));
                }
                assert(id_texts(visited@).to_set().subset_of(targets(e))) by {
                    assert forall|x: Seq<char>| id_texts(visited@).to_set().contains(x) implies targets(e).contains(x) by {
                        if !id_texts(v0).to_set().contains(x) {
                            assert(e.contains((a, x)));
                        }
                    }
                }
                lemma_visited_bound(visited@, universe@);
                assert(queue@.len() - q0.len() == visited@.len() - v0.len());
            }
            h = h + 1;
        }
        proof {
            let vs = id_texts(visited@).to_set();
            assert forall|x: Seq<char>| e.contains((t, x)) implies vs.contains(x) by {
                assert(e.contains((queue@[0].view(), x)));
            }
            assert forall|y: Seq<char>, x: Seq<char>| vs.contains(y) && e.contains((y, x)) implies vs.contains(x) by {
                assert(id_texts(visited@).contains(y));
                let k = choose|k: int| 1 <= k < queue@.len() && (#[trigger] queue@[k]).view() == y;
                assert(e.contains((queue@[k].view(), x)));
            }
            assert forall|x: Seq<char>| vs.contains(x) <==> reached(e, t, x) by {
                if reached(e, t, x) {
                    let path = choose|path: Seq<Seq<char>>| #[trigger] is_chain(e, path) && path[0] == t && path.last() == x;
                    lemma_chain_closed(e, vs, t, path);
                }
            }
            assert(vs =~= Set::new(|x: Seq<char>| reached(e, t, x)));
        }
        visited
    }
}

} // verus!
