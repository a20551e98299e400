use crate::ids::DocumentId;
use crate::json::{text_less, text_lt};
use crate::keyed::{ascending, lemma_text_insert};
use vstd::prelude::*;

verus! {

/// The identifiers as texts.
pub open spec fn id_texts(ids: Seq<DocumentId>) -> Seq<Seq<char>> {
    Seq::new(ids.len(), |i: int| ids[i].view())
}

/// Adds `id` to an ascending list of identifiers unless it is there already.
pub fn insert_id(ids: &mut Vec<DocumentId>, id: DocumentId)
    requires
        ascending(id_texts(old(ids)@)),
    ensures
        ascending(id_texts(final(ids)@)),
        id_texts(final(ids)@).to_set() == id_texts(old(ids)@).to_set().insert(id.view()),
        id_texts(old(ids)@).contains(id.view()) ==> final(ids)@ == old(ids)@,
        !id_texts(old(ids)@).contains(id.view()) ==> final(ids)@.len() == old(ids)@.len() + 1,
{
    let ghost v = id_texts(ids@);
    let ghost key = id.view();
    let mut pos: usize = 0;
    while pos < ids.len() && !text_less(id.as_str(), ids[pos].as_str())
        invariant
            v == id_texts(ids@),
            ascending(v),
            key == id.view(),
            pos <= v.len(),
            forall|j: int| 0 <= j < pos ==> !text_lt(key, #[trigger] v[j]),
            forall|j: int| 0 <= j < pos ==> #[trigger] v[j] != key,
        decreases v.len() - pos,
    {
        if ids[pos].same(&id) {
            assert(v[pos as int] == key);
            assert(v.to_set().insert(key) =~= v.to_set());
            return;
        }
        pos = pos + 1;
    }
    proof {
        if v.contains(key) {
            let w = choose|w: int| 0 <= w < v.len() && v[w] == key;
            if w < pos {
                assert(v[w] != key);
            } else {
                assert(text_lt(key, v[pos as int]));
                if w > pos {
                    assert(text_lt(v[pos as int], v[w]));
                    crate::json::lemma_text_lt_asymmetric(key, v[pos as int]);
                } else {
                    crate::json::lemma_text_lt_irreflexive(key);
                }
            }
        }
        if pos < v.len() {
            assert(text_lt(key, v[pos as int]));
        }
        lemma_text_insert(v, pos as int, key);
    }
    ids.insert(pos, id);
    assert(id_texts(ids@) =~= v.insert(pos as int, key));
    proof {
        let nv = v.insert(pos as int, key);
        assert forall|x: Seq<char>| nv.to_set().contains(x) <==> v.to_set().insert(key).contains(x) by {
            if nv.contains(x) {
                let i = choose|i: int| 0 <= i < nv.len() && nv[i] == x;
                if i < pos {
                    assert(v[i] == x);
                } else if i > pos {
                    assert(v[i - 1] == x);
                }
            }
            if v.contains(x) {
                let i = choose|i: int| 0 <= i < v.len() && v[i] == x;
                if i < pos {
                    assert(nv[i] == x);
                } else {
                    assert(nv[i + 1] == x);
                }
            }
            if x == key {
                assert(nv[pos as int] == key);
            }
        }
        assert(nv.to_set() =~= v.to_set().insert(key));
    }
}

/// Which documents a tool needs, and whether it scans the whole project.
#[derive(Debug)]
pub struct DocumentAccessPlan {
    pub required: Vec<DocumentId>,
    pub scans_project: bool,
}

impl DocumentAccessPlan {
    /// A plan that reads the whole project.
    pub fn project() -> (p: Self)
        ensures
            p.required@.len() == 0,
            p.scans_project,
    {
        DocumentAccessPlan { required: Vec::new(), scans_project: true }
    }

    /// A plan that needs one document.
    pub fn document(id: DocumentId) -> (p: Self)
        ensures
            id_texts(p.required@) == seq![id.view()],
            !p.scans_project,
    {
        let mut required: Vec<DocumentId> = Vec::new();
        required.push(id);
        let p = DocumentAccessPlan { required, scans_project: false };
        assert(id_texts(p.required@) =~= seq![p.required@[0].view()]);
        p
    }

    /// A plan that needs the given documents (each once, in ascending order).
    pub fn documents(ids: Vec<DocumentId>) -> (p: Self)
        ensures
            ascending(id_texts(p.required@)),
            id_texts(p.required@).to_set() == id_texts(ids@).to_set(),
            !p.scans_project,
    {
        let ghost all = id_texts(ids@);
        let mut rest = ids;
        let mut required: Vec<DocumentId> = Vec::new();
        let ghost mut done: int = 0;
        assert(id_texts(required@) =~= Seq::<Seq<char>>::empty());
        assert(id_texts(rest@) =~= all.skip(0));
        assert(all.take(0).to_set() =~= Set::<Seq<char>>::empty());
        while rest.len() > 0
            invariant
                0 <= done <= all.len(),
                rest@.len() == all.len() - done,
                id_texts(rest@) == all.skip(done),
                ascending(id_texts(required@)),
                id_texts(required@).to_set() == all.take(done).to_set(),
            decreases rest@.len(),
        {
            let ghost raw = rest@;
            let id = rest.remove(0);
            proof {
                assert(id_texts(raw)[0] == all.skip(done)[0]);
                assert(id.view() == all[done]);
                assert(rest@ =~= raw.drop_first());
                assert forall|i: int| 0 <= i < rest@.len() implies #[trigger] id_texts(rest@)[i] == all.skip(done + 1)[i] by {
                    assert(rest@[i] == raw[i + 1]);
                    assert(id_texts(raw)[i + 1] == all.skip(done)[i + 1]);
                }
                assert(id_texts(rest@) =~= all.skip(done + 1));
                assert(all.take(done + 1) =~= all.take(done).push(all[done]));
                crate::keyed::lemma_push_to_set(all.take(done), all[done]);
            }
            insert_id(&mut required, id);
            proof {
                done = done + 1;
            }
        }
        assert(all.take(done) =~= all);
        DocumentAccessPlan { required, scans_project: false }
    }
}

} // verus!
