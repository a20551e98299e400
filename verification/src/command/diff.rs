use crate::access::{id_texts, insert_id};
use crate::content::{content_hash_of, DocumentStore, EnvelopeView};
use crate::ids::DocumentId;
use crate::json::text_lt;
use crate::keyed::{ascending, key_index};
use crate::text::string_of;
use vstd::prelude::*;

verus! {

/// How one document differs between two states.
#[derive(Debug)]
pub struct DocumentDiff {
    pub document_id: DocumentId,
    pub before_hash: Option<String>,
    pub after_hash: Option<String>,
    pub change: String,
}

/// A difference as plain values.
pub struct DiffView {
    pub document_id: Seq<char>,
    pub before_hash: Option<Seq<char>>,
    pub after_hash: Option<Seq<char>>,
    pub change: Seq<char>,
}

/// An optional text as plain characters.
pub open spec fn opt_text(o: Option<String>) -> Option<Seq<char>> {
    match o {
        Some(s) => Some(s@),
        None => None,
    }
}

impl DocumentDiff {
    /// The difference as plain values.
    pub open spec fn view(&self) -> DiffView {
        DiffView {
            document_id: self.document_id.view(),
            before_hash: opt_text(self.before_hash),
            after_hash: opt_text(self.after_hash),
            change: self.change@,
        }
    }
}

impl Clone for DocumentDiff {
    fn clone(&self) -> (r: Self)
        ensures
            r.view() == self.view(),
    {
        DocumentDiff {
            document_id: self.document_id.clone(),
            before_hash: match &self.before_hash {
                Some(h) => Some(h.clone()),
                None => None,
            },
            after_hash: match &self.after_hash {
                Some(h) => Some(h.clone()),
                None => None,
            },
            change: self.change.clone(),
        }
    }
}

/// The differences as plain values.
pub open spec fn diff_views(ds: Seq<DocumentDiff>) -> Seq<DiffView> {
    Seq::new(ds.len(), |i: int| ds[i].view())
}

/// The content hash of the document stored under `id`, if any.
pub open spec fn hash_in(s: Seq<(Seq<char>, EnvelopeView)>, id: Seq<char>) -> Option<Seq<char>> {
    match key_index(s, id) {
        Some(i) => Some(content_hash_of(s[i].1)),
        None => None,
    }
}

/// `created`, `deleted` or `modified`.
pub open spec fn change_of(before: Option<Seq<char>>, after: Option<Seq<char>>) -> Seq<char> {
    if before is None {
        "created"@
    } else if after is None {
        "deleted"@
    } else {
        "modified"@
    }
}

/// Whether the document under `id` is in either state and its hash differs between them.
pub open spec fn changed(
    before: Seq<(Seq<char>, EnvelopeView)>,
    after: Seq<(Seq<char>, EnvelopeView)>,
    id: Seq<char>,
) -> bool {
    &&& (key_index(before, id) is Some || key_index(after, id) is Some)
    &&& hash_in(before, id) != hash_in(after, id)
}

/// The difference recorded for `id`.
pub open spec fn diff_at(
    before: Seq<(Seq<char>, EnvelopeView)>,
    after: Seq<(Seq<char>, EnvelopeView)>,
    id: Seq<char>,
) -> DiffView {
    DiffView {
        document_id: id,
        before_hash: hash_in(before, id),
        after_hash: hash_in(after, id),
        change: change_of(hash_in(before, id), hash_in(after, id)),
    }
}

/// The identifiers of a list of differences.
pub open spec fn diff_ids(ds: Seq<DiffView>) -> Seq<Seq<char>> {
    Seq::new(ds.len(), |i: int| ds[i].document_id)
}

/// `ds` lists every changed document once, in ascending identifier order, with its
/// hashes before and after and the kind of change.
pub open spec fn is_store_diff(
    before: Seq<(Seq<char>, EnvelopeView)>,
    after: Seq<(Seq<char>, EnvelopeView)>,
    ds: Seq<DiffView>,
) -> bool {
    &&& ascending(diff_ids(ds))
    &&& forall|i: int|
        0 <= i < ds.len() ==> changed(before, after, (#[trigger] ds[i]).document_id) && ds[i]
            == diff_at(before, after, ds[i].document_id)
    &&& forall|id: Seq<char>| changed(before, after, id) ==> diff_ids(ds).contains(id)
}

/// The keys of a store.
pub open spec fn store_keys(s: Seq<(Seq<char>, EnvelopeView)>) -> Set<Seq<char>> {
    Set::new(|k: Seq<char>| key_index(s, k) is Some)
}

fn add_keys(ids: &mut Vec<DocumentId>, store: &DocumentStore)
    requires
        ascending(id_texts(old(ids)@)),
    ensures
        ascending(id_texts(final(ids)@)),
        id_texts(final(ids)@).to_set() == id_texts(old(ids)@).to_set().union(store_keys(store.view())),
{
    let entries = store.iter();
    let ghost v = store.view();
    let ghost start = id_texts(ids@).to_set();
    let mut i: usize = 0;
    while i < entries.len()
        invariant
            crate::content::store_view(entries@) == v,
            v == store.view(),
            i <= entries@.len(),
            ascending(id_texts(ids@)),
            id_texts(ids@).to_set() == start.union(Set::new(|k: Seq<char>| exists|j: int| 0 <= j < i && v[j].0 == k)),
        decreases entries@.len() - i,
    {
        let ghost before = id_texts(ids@).to_set();
        insert_id(ids, entries[i].0.clone());
        proof {
            assert(v[i as int].0 == entries@[i as int].0.view());
            assert(id_texts(ids@).to_set() =~= start.union(Set::new(|k: Seq<char>| exists|j: int| 0 <= j < i + 1 && v[j].0 == k)));
        }
        i = i + 1;
    }
    proof {
        assert forall|k: Seq<char>| (exists|j: int| 0 <= j < v.len() && v[j].0 == k) <==> store_keys(v).contains(k) by {
            if exists|j: int| 0 <= j < v.len() && v[j].0 == k {
                let j = choose|j: int| 0 <= j < v.len() && v[j].0 == k;
                assert(v[j].0 == k);
            }
            if key_index(v, k) is Some {
                assert(exists|i: int| 0 <= i < v.len() && (#[trigger] v[i]).0 == k);
            }
        }
        assert(id_texts(ids@).to_set() =~= start.union(store_keys(v)));
    }
}

fn hash_of(store: &DocumentStore, id: &DocumentId) -> (h: Option<String>)
    ensures
        opt_text(h) == hash_in(store.view(), id.view()),
{
    match store.get(id) {
        Ok(d) => match d.content_hash() {
            Ok(h) => Some(h),
            Err(_) => None,
        },
        Err(_) => None,
    }
}

fn same_hash(a: &Option<String>, b: &Option<String>) -> (r: bool)
    ensures
        r == (opt_text(*a) == opt_text(*b)),
{
    match (a, b) {
        (Some(x), Some(y)) => *x == *y,
        (None, None) => true,
        _ => false,
    }
}

/// The documents that differ between two stores (see `is_store_diff`).
pub fn diff_stores(before: &DocumentStore, after: &DocumentStore) -> (ds: Vec<DocumentDiff>)
    ensures
        is_store_diff(before.view(), after.view(), diff_views(ds@)),
{
    let mut ids: Vec<DocumentId> = Vec::new();
    assert(id_texts(ids@) =~= Seq::<Seq<char>>::empty());
    add_keys(&mut ids, before);
    add_keys(&mut ids, after);
    let ghost b = before.view();
    let ghost a = after.view();
    let ghost keys = id_texts(ids@);
    assert(keys.to_set() =~= Set::<Seq<char>>::empty().union(store_keys(b)).union(store_keys(a)));
    let mut out: Vec<DocumentDiff> = Vec::new();
    let mut k: usize = 0;
    while k < ids.len()
        invariant
            keys == id_texts(ids@),
            ascending(keys),
            b == before.view(),
            a == after.view(),
            k <= keys.len(),
            ascending(diff_ids(diff_views(out@))),
            forall|i: int|
                0 <= i < out@.len() ==> exists|j: int| 0 <= j < k && keys[j] == (#[trigger] out@[i]).view().document_id,
            forall|i: int|
                0 <= i < out@.len() ==> changed(b, a, (#[trigger] out@[i]).view().document_id) && out@[i].view()
                    == diff_at(b, a, out@[i].view().document_id),
            forall|j: int| 0 <= j < k && changed(b, a, #[trigger] keys[j]) ==> diff_ids(diff_views(out@)).contains(keys[j]),
        decreases keys.len() - k,
    {
        let id = &ids[k];
        let old_hash = hash_of(before, id);
        let new_hash = hash_of(after, id);
        if !same_hash(&old_hash, &new_hash) {
            let change = if old_hash.is_none() {
                string_of("created")
            } else if new_hash.is_none() {
                string_of("deleted")
            } else {
                string_of("modified")
            };
            proof {
                reveal_strlit("created");
                reveal_strlit("deleted");
                reveal_strlit("modified");
            }
            let ghost before_out = out@;
            let d = DocumentDiff { document_id: id.clone(), before_hash: old_hash, after_hash: new_hash, change };
            proof {
                assert(key_index(b, keys[k as int]) is Some || key_index(a, keys[k as int]) is Some);
            }
            out.push(d);
            proof {
                assert(diff_views(out@) =~= diff_views(before_out).push(d.view()));
                assert forall|i: int, i2: int| 0 <= i < i2 < out@.len() implies text_lt(
                    #[trigger] diff_ids(diff_views(out@))[i],
                    #[trigger] diff_ids(diff_views(out@))[i2],
                ) by {
                    if i2 == out@.len() - 1 {
                        let j = choose|j: int| 0 <= j < k && keys[j] == before_out[i].view().document_id;
                        assert(text_lt(keys[j], keys[k as int]));
                    } else {
                        assert(diff_ids(diff_views(before_out))[i] == diff_ids(diff_views(out@))[i]);
                        assert(diff_ids(diff_views(before_out))[i2] == diff_ids(diff_views(out@))[i2]);
                    }
                }
                assert forall|j: int| 0 <= j < k + 1 && changed(b, a, #[trigger] keys[j]) implies diff_ids(diff_views(out@)).contains(keys[j]) by {
                    if j == k {
                        assert(diff_ids(diff_views(out@))[out@.len() - 1] == keys[j]);
                    } else {
                        let i = choose|i: int| 0 <= i < before_out.len() && diff_ids(diff_views(before_out))[i] == keys[j];
                        assert(diff_ids(diff_views(out@))[i] == keys[j]);
                    }
                }
                assert forall|i: int| 0 <= i < out@.len() implies exists|j: int| 0 <= j < k + 1 && keys[j] == (#[trigger] out@[i]).view().document_id by {
                    if i == out@.len() - 1 {
                        assert(keys[k as int] == out@[i].view().document_id);
                    } else {
                        assert(out@[i] == before_out[i]);
                        let j = choose|j: int| 0 <= j < k && keys[j] == before_out[i].view().document_id;
                        assert(0 <= j < k + 1 && keys[j] == out@[i].view().document_id);
                    }
                }
            }
        } else {
            proof {
                assert forall|j: int| 0 <= j < k + 1 && changed(b, a, #[trigger] keys[j]) implies diff_ids(diff_views(out@)).contains(keys[j]) by {
                    if j == k {
                        assert(!changed(b, a, keys[j]));
                    }
                }
            }
        }
        k = k + 1;
    }
    proof {
        assert forall|id: Seq<char>| changed(b, a, id) implies diff_ids(diff_views(out@)).contains(id) by {
            if key_index(b, id) is Some {
                assert(store_keys(b).contains(id));
            } else {
                assert(store_keys(a).contains(id));
            }
            assert(keys.to_set().contains(id));
            let j = choose|j: int| 0 <= j < keys.len() && keys[j] == id;
            assert(changed(b, a, keys[j]));
        }
    }
    out
}

} // verus!
