//! Asset manifests: assets by identifier, slots bound to assets, dependency checks.

use crate::access::id_texts;
use crate::diagnostics::{plain, Diagnostic, DiagnosticBag, DiagnosticView, Severity};
use crate::ids::{AssetId, AssetSlotId, DocumentId};
use crate::json::{text_less, text_lt};
use crate::keyed::{ascending, key_index, key_slot, keys_ascending, lemma_insert_slot, lemma_key_index, lemma_slot_at};
use crate::query::graph::{adjacency_pairs, reached, ProjectGraph};
use crate::text::{push_str, string_of};
use vstd::prelude::*;

verus! {

/// An asset refers to an asset that the manifest does not hold.
pub const ASSET_DEPENDENCY_NOT_FOUND: &'static str = "ASSET_DEPENDENCY_NOT_FOUND";

/// A slot is bound to an asset that the manifest does not hold.
pub const ASSET_SLOT_UNBOUND: &'static str = "ASSET_SLOT_UNBOUND";

/// One asset: where its source and runtime files are, its kind, and the assets it needs.
#[derive(Debug)]
pub struct AssetEntry {
    pub id: AssetId,
    pub source: String,
    pub runtime_path: String,
    pub kind: String,
    pub dependencies: Vec<AssetId>,
}

/// The texts of asset identifiers.
pub open spec fn asset_texts(ids: Seq<AssetId>) -> Seq<Seq<char>> {
    Seq::new(ids.len(), |i: int| ids[i].view())
}

/// An asset entry as plain values.
pub struct EntryView {
    pub id: Seq<char>,
    pub source: Seq<char>,
    pub runtime_path: Seq<char>,
    pub kind: Seq<char>,
    pub dependencies: Seq<Seq<char>>,
}

impl AssetEntry {
    /// The entry as plain values.
    pub open spec fn view(&self) -> EntryView {
        EntryView {
            id: self.id.view(),
            source: self.source@,
            runtime_path: self.runtime_path@,
            kind: self.kind@,
            dependencies: asset_texts(self.dependencies@),
        }
    }
}

/// Entries by their key text.
pub open spec fn entries_of(s: Seq<(AssetId, AssetEntry)>) -> Seq<(Seq<char>, EntryView)> {
    Seq::new(s.len(), |i: int| (s[i].0.view(), s[i].1.view()))
}

/// Slot bindings by their texts.
pub open spec fn bindings_of(s: Seq<(AssetSlotId, AssetId)>) -> Seq<(Seq<char>, Seq<char>)> {
    Seq::new(s.len(), |i: int| (s[i].0.view(), s[i].1.view()))
}

/// The `(asset, dependency)` pairs of a manifest's entries.
pub open spec fn dependency_pairs(entries: Seq<(Seq<char>, EntryView)>) -> Set<(Seq<char>, Seq<char>)> {
    Set::new(
        |p: (Seq<char>, Seq<char>)|
            exists|i: int, j: int|
                0 <= i < entries.len() && 0 <= j < entries[i].1.dependencies.len() && (#[trigger] entries[i]).0 == p.0
                    && #[trigger] entries[i].1.dependencies[j] == p.1,
    )
}

/// The error for a dependency of `e` that the manifest lacks.
pub open spec fn missing_dependency(e: EntryView, dependency: Seq<char>) -> DiagnosticView {
    plain(ASSET_DEPENDENCY_NOT_FOUND@, Severity::Error, "asset "@ + e.id + " depends on missing asset "@ + dependency)
}

/// The errors for the first `n` dependencies of `e`.
pub open spec fn entry_diags(entries: Seq<(Seq<char>, EntryView)>, e: EntryView, n: int) -> Seq<DiagnosticView>
    decreases n,
{
    if n <= 0 {
        Seq::empty()
    } else {
        entry_diags(entries, e, n - 1) + if key_index(entries, e.dependencies[n - 1]) is None {
            seq![missing_dependency(e, e.dependencies[n - 1])]
        } else {
            Seq::empty()
        }
    }
}

/// The dependency errors of the first `n` entries.
pub open spec fn dependency_diags(entries: Seq<(Seq<char>, EntryView)>, n: int) -> Seq<DiagnosticView>
    decreases n,
{
    if n <= 0 {
        Seq::empty()
    } else {
        dependency_diags(entries, n - 1) + entry_diags(entries, entries[n - 1].1, entries[n - 1].1.dependencies.len() as int)
    }
}

/// The error for a slot bound to an asset that the manifest lacks.
pub open spec fn unbound_slot(slot: Seq<char>, asset: Seq<char>) -> DiagnosticView {
    plain(ASSET_SLOT_UNBOUND@, Severity::Error, "slot "@ + slot + " references missing asset "@ + asset)
}

/// The slot errors of the first `n` bindings.
pub open spec fn slot_diags(entries: Seq<(Seq<char>, EntryView)>, slots: Seq<(Seq<char>, Seq<char>)>, n: int) -> Seq<DiagnosticView>
    decreases n,
{
    if n <= 0 {
        Seq::empty()
    } else {
        slot_diags(entries, slots, n - 1) + if key_index(entries, slots[n - 1].1) is None {
            seq![unbound_slot(slots[n - 1].0, slots[n - 1].1)]
        } else {
            Seq::empty()
        }
    }
}

/// What validating a manifest reports: each missing dependency, entry by entry in key
/// order, then each slot bound to a missing asset, in slot order.
pub open spec fn manifest_diags(entries: Seq<(Seq<char>, EntryView)>, slots: Seq<(Seq<char>, Seq<char>)>) -> Seq<DiagnosticView> {
    dependency_diags(entries, entries.len() as int) + slot_diags(entries, slots, slots.len() as int)
}

/// `a + b + c + d`.
fn join_message(a: &str, b: &str, c: &str, d: &str) -> (m: String)
    ensures
        m@ == a@ + b@ + c@ + d@,
{
    let mut m = string_of(a);
    push_str(&mut m, b);
    push_str(&mut m, c);
    push_str(&mut m, d);
    m
}

/// Assets by identifier and slots by identifier, both in ascending key order.
#[derive(Debug)]
pub struct AssetManifest {
    assets: Vec<(AssetId, AssetEntry)>,
    slots: Vec<(AssetSlotId, AssetId)>,
}

impl AssetManifest {
    #[verifier::type_invariant]
    spec fn sorted(self) -> bool {
        &&& keys_ascending(entries_of(self.assets@))
        &&& keys_ascending(bindings_of(self.slots@))
    }

    /// The assets, by key, in ascending key order.
    pub closed spec fn entries(&self) -> Seq<(Seq<char>, EntryView)> {
        entries_of(self.assets@)
    }

    /// The slot bindings, by slot, in ascending slot order.
    pub closed spec fn bindings(&self) -> Seq<(Seq<char>, Seq<char>)> {
        bindings_of(self.slots@)
    }

    /// An empty manifest.
    pub fn new() -> (m: Self)
        ensures
            m.entries() == Seq::<(Seq<char>, EntryView)>::empty(),
            m.bindings() == Seq::<(Seq<char>, Seq<char>)>::empty(),
    {
        let m = AssetManifest { assets: Vec::new(), slots: Vec::new() };
        assert(m.entries() =~= Seq::<(Seq<char>, EntryView)>::empty());
        assert(m.bindings() =~= Seq::<(Seq<char>, Seq<char>)>::empty());
        m
    }

    fn find_asset(&self, id: &AssetId) -> (r: Option<usize>)
        ensures
            match r {
                Some(i) => i < self.entries().len() && key_index(self.entries(), id.view()) == Some(i as int),
                None => key_index(self.entries(), id.view()) is None,
            },
    {
        let ghost v = self.entries();
        let mut i: usize = 0;
        while i < self.assets.len()
            invariant
                v == self.entries(),
                i <= v.len(),
                forall|j: int| 0 <= j < i ==> (#[trigger] v[j]).0 != id.view(),
            decreases v.len() - i,
        {
            if self.assets[i].0.same(id) {
                proof {
                    assert(v[i as int].0 == id.view());
                    lemma_key_index(v, id.view());
                    let w = key_index(v, id.view())->Some_0;
                    if w < i {
                        assert(v[w].0 != id.view());
                    } else if w > i {
                        assert(v[i as int].0 != id.view());
                    }
                }
                return Some(i);
            }
            i = i + 1;
        }
        proof {
            lemma_key_index(v, id.view());
        }
        None
    }

    /// Whether the manifest holds an asset under `id`.
    pub fn contains(&self, id: &AssetId) -> (r: bool)
        ensures
            r == key_index(self.entries(), id.view()) is Some,
    {
        self.find_asset(id).is_some()
    }

    /// Stores `entry` under `id`, replacing any entry stored there.
    pub fn insert_asset(&mut self, id: AssetId, entry: AssetEntry)
        ensures
            match key_index(old(self).entries(), id.view()) {
                Some(i) => final(self).entries() == old(self).entries().update(i, (id.view(), entry.view())),
                None => final(self).entries() == old(self).entries().insert(
                    key_slot(old(self).entries(), id.view()),
                    (id.view(), entry.view()),
                ),
            },
            final(self).bindings() == old(self).bindings(),
    {
        proof {
            use_type_invariant(&*self);
        }
        let ghost v = self.entries();
        let ghost b0 = self.bindings();
        let ghost key = id.view();
        let ghost ev = entry.view();
        match self.find_asset(&id) {
            Some(i) => {
                proof {
                    lemma_key_index(v, key);
                    assert(v.update(i as int, (key, ev)) =~= entries_of(self.assets@.update(i as int, (id, entry))));
                    let nv = v.update(i as int, (key, ev));
                    assert forall|a: int, b: int| 0 <= a < b < nv.len() implies text_lt(#[trigger] nv[a].0, #[trigger] nv[b].0) by {
                        assert(nv[a].0 == v[a].0 && nv[b].0 == v[b].0);
                    }
                }
                let mut assets: Vec<(AssetId, AssetEntry)> = Vec::new();
                std::mem::swap(&mut assets, &mut self.assets);
                assets.set(i, (id, entry));
                self.assets = assets;
            },
            None => {
                let mut pos: usize = 0;
                while pos < self.assets.len() && !text_less(id.as_str(), self.assets[pos].0.as_str())
                    invariant
                        v == self.entries(),
                        keys_ascending(v),
                        key_index(v, key) is None,
                        b0 == self.bindings(),
                        keys_ascending(b0),
                        key == id.view(),
                        pos <= v.len(),
                        forall|j: int| 0 <= j < pos ==> !text_lt(key, (#[trigger] v[j]).0),
                    decreases v.len() - pos,
                {
                    pos = pos + 1;
                }
                proof {
                    if pos < v.len() {
                        assert(text_lt(key, v[pos as int].0));
                    }
                    lemma_insert_slot(v, pos as int, key, ev);
                }
                let ghost raw = self.assets@;
                let mut assets: Vec<(AssetId, AssetEntry)> = Vec::new();
                std::mem::swap(&mut assets, &mut self.assets);
                assert(assets@ == raw);
                assets.insert(pos, (id, entry));
                assert(entries_of(assets@) =~= v.insert(pos as int, (key, ev)));
                self.assets = assets;
            },
        }
    }

    fn find_slot(&self, slot: &AssetSlotId) -> (r: Option<usize>)
        ensures
            match r {
                Some(i) => i < self.bindings().len() && key_index(self.bindings(), slot.view()) == Some(i as int),
                None => key_index(self.bindings(), slot.view()) is None,
            },
    {
        let ghost v = self.bindings();
        let mut i: usize = 0;
        while i < self.slots.len()
            invariant
                v == self.bindings(),
                i <= v.len(),
                forall|j: int| 0 <= j < i ==> (#[trigger] v[j]).0 != slot.view(),
            decreases v.len() - i,
        {
            if self.slots[i].0.same(slot) {
                proof {
                    assert(v[i as int].0 == slot.view());
                    lemma_key_index(v, slot.view());
                    let w = key_index(v, slot.view())->Some_0;
                    if w < i {
                        assert(v[w].0 != slot.view());
                    } else if w > i {
                        assert(v[i as int].0 != slot.view());
                    }
                }
                return Some(i);
            }
            i = i + 1;
        }
        proof {
            lemma_key_index(v, slot.view());
        }
        None
    }

    /// Binds `slot` to `asset`, replacing any binding of the slot.
    pub fn bind_slot(&mut self, slot: AssetSlotId, asset: AssetId)
        ensures
            match key_index(old(self).bindings(), slot.view()) {
                Some(i) => final(self).bindings() == old(self).bindings().update(i, (slot.view(), asset.view())),
                None => final(self).bindings() == old(self).bindings().insert(
                    key_slot(old(self).bindings(), slot.view()),
                    (slot.view(), asset.view()),
                ),
            },
            final(self).entries() == old(self).entries(),
    {
        proof {
            use_type_invariant(&*self);
        }
        let ghost v = self.bindings();
        let ghost e0 = self.entries();
        let ghost key = slot.view();
        let ghost av = asset.view();
        match self.find_slot(&slot) {
            Some(i) => {
                proof {
                    lemma_key_index(v, key);
                    let nv = v.update(i as int, (key, av));
                    assert(nv =~= bindings_of(self.slots@.update(i as int, (slot, asset))));
                    assert forall|a: int, b: int| 0 <= a < b < nv.len() implies text_lt(#[trigger] nv[a].0, #[trigger] nv[b].0) by {
                        assert(nv[a].0 == v[a].0 && nv[b].0 == v[b].0);
                    }
                }
                let mut slots: Vec<(AssetSlotId, AssetId)> = Vec::new();
                std::mem::swap(&mut slots, &mut self.slots);
                slots.set(i, (slot, asset));
                self.slots = slots;
            },
            None => {
                let mut pos: usize = 0;
                while pos < self.slots.len() && !text_less(slot.as_str(), self.slots[pos].0.as_str())
                    invariant
                        v == self.bindings(),
                        keys_ascending(v),
                        key_index(v, key) is None,
                        e0 == self.entries(),
                        keys_ascending(e0),
                        key == slot.view(),
                        pos <= v.len(),
                        forall|j: int| 0 <= j < pos ==> !text_lt(key, (#[trigger] v[j]).0),
                    decreases v.len() - pos,
                {
                    pos = pos + 1;
                }
                proof {
                    if pos < v.len() {
                        assert(text_lt(key, v[pos as int].0));
                    }
                    lemma_insert_slot(v, pos as int, key, av);
                }
                let mut slots: Vec<(AssetSlotId, AssetId)> = Vec::new();
                std::mem::swap(&mut slots, &mut self.slots);
                slots.insert(pos, (slot, asset));
                assert(bindings_of(slots@) =~= v.insert(pos as int, (key, av)));
                self.slots = slots;
            },
        }
    }

    /// The entries, in ascending key order.
    pub fn assets(&self) -> (r: &[(AssetId, AssetEntry)])
        ensures
            entries_of(r@) == self.entries(),
            keys_ascending(self.entries()),
    {
        proof {
            use_type_invariant(self);
        }
        self.assets.as_slice()
    }

    /// The slot bindings, in ascending slot order.
    pub fn slots(&self) -> (r: &[(AssetSlotId, AssetId)])
        ensures
            bindings_of(r@) == self.bindings(),
            keys_ascending(self.bindings()),
    {
        proof {
            use_type_invariant(self);
        }
        self.slots.as_slice()
    }

    #[verifier::spinoff_prover]
    #[verifier::rlimit(80)]
    fn push_entry_diags(&self, entry: &AssetEntry, bag: &mut DiagnosticBag)
        ensures
            final(bag).view() == old(bag).view() + entry_diags(
                self.entries(),
                entry.view(),
                entry.view().dependencies.len() as int,
            ),
    {
        let ghost es = self.entries();
        let ghost ev = entry.view();
        let ghost start = bag.view();
        assert(start + entry_diags(es, ev, 0) =~= start);
        let mut d: usize = 0;
        while d < entry.dependencies.len()
            invariant
                es == self.entries(),
                ev == entry.view(),
                d <= ev.dependencies.len(),
                bag.view() == start + entry_diags(es, ev, d as int),
            decreases ev.dependencies.len() - d,
        {
            let dependency = &entry.dependencies[d];
            let ghost dep = ev.dependencies[d as int];
            let ghost before = bag.view();
            assert(dependency.view() == dep);
            let missing = !self.contains(dependency);
            if missing {
                let m = join_message("asset ", entry.id.as_str(), " depends on missing asset ", dependency.as_str());
                let diagnostic = Diagnostic::error(ASSET_DEPENDENCY_NOT_FOUND, m);
                assert(diagnostic.view() == missing_dependency(ev, dep));
                bag.push(diagnostic);
            }
            proof {
                let step = if key_index(es, dep) is None {
                    seq![missing_dependency(ev, dep)]
                } else {
                    Seq::<DiagnosticView>::empty()
                };
                assert(entry_diags(es, ev, d as int + 1) == entry_diags(es, ev, d as int) + step);
                assert(bag.view() == before + step);
                assert(bag.view() =~= start + entry_diags(es, ev, d as int + 1));
            }
            d = d + 1;
        }
    }

    /// Reports every dependency and slot binding that names an asset the manifest lacks
    /// (see `manifest_diags`).
    #[verifier::rlimit(40)]
    pub fn validate(&self) -> (bag: DiagnosticBag)
        ensures
            bag.view() == manifest_diags(self.entries(), self.bindings()),
    {
        let ghost es = self.entries();
        let mut bag = DiagnosticBag::new();
        let mut n: usize = 0;
        while n < self.assets.len()
            invariant
                es == self.entries(),
                n <= es.len(),
                bag.view() == dependency_diags(es, n as int),
            decreases es.len() - n,
        {
            let entry = &self.assets[n].1;
            assert(es[n as int].1 == entry.view());
            self.push_entry_diags(entry, &mut bag);
            assert(bag.view() =~= dependency_diags(es, n as int + 1));
            n = n + 1;
        }
        let ghost bs = self.bindings();
        let ghost mid = bag.view();
        let mut k: usize = 0;
        while k < self.slots.len()
            invariant
                es == self.entries(),
                bs == self.bindings(),
                k <= bs.len(),
                mid == dependency_diags(es, es.len() as int),
                bag.view() == mid + slot_diags(es, bs, k as int),
            decreases bs.len() - k,
        {
            let binding = &self.slots[k];
            assert(binding.0.view() == bs[k as int].0 && binding.1.view() == bs[k as int].1);
            if !self.contains(&binding.1) {
                let m = join_message("slot ", binding.0.as_str(), " references missing asset ", binding.1.as_str());
                bag.push(Diagnostic::error(ASSET_SLOT_UNBOUND, m));
                assert(bag.view() =~= mid + slot_diags(es, bs, k as int + 1));
            } else {
                assert(bag.view() =~= mid + slot_diags(es, bs, k as int + 1));
            }
            k = k + 1;
        }
        bag
    }

    /// Every asset that `root` needs through one or more dependencies, in ascending order.
    pub fn transitive_dependencies(&self, root: &AssetId) -> (r: Vec<AssetId>)
        ensures
            ascending(asset_texts(r@)),
            asset_texts(r@).to_set() == Set::new(|x: Seq<char>| reached(dependency_pairs(self.entries()), root.view(), x)),
    {
        let ghost es = self.entries();
        let mut edges: Vec<(DocumentId, Vec<DocumentId>)> = Vec::new();
        let mut n: usize = 0;
        while n < self.assets.len()
            invariant
                es == self.entries(),
                n <= es.len(),
                edges@.len() == n,
                forall|k: int| 0 <= k < n ==> (#[trigger] edges@[k]).0.view() == es[k].0 && id_texts(edges@[k].1@)
                    == es[k].1.dependencies,
            decreases es.len() - n,
        {
            let entry = &self.assets[n];
            let ghost deps = es[n as int].1.dependencies;
            let mut targets: Vec<DocumentId> = Vec::new();
            let mut d: usize = 0;
            while d < entry.1.dependencies.len()
                invariant
                    es == self.entries(),
                    n < es.len(),
                    deps == es[n as int].1.dependencies,
                    deps == asset_texts(entry.1.dependencies@),
                    d <= deps.len(),
                    id_texts(targets@) == deps.take(d as int),
                decreases deps.len() - d,
            {
                let ghost t0 = targets@;
                let target = entry.1.dependencies[d].to_document_id();
                assert(target.view() == deps[d as int]);
                targets.push(target);
                assert(id_texts(targets@) =~= id_texts(t0).push(deps[d as int]));
                assert(deps.take(d as int + 1) =~= deps.take(d as int).push(deps[d as int]));
                d = d + 1;
            }
            assert(deps.take(d as int) =~= deps);
            edges.push((entry.0.to_document_id(), targets));
            n = n + 1;
        }
        proof {
            let m = edges@;
            assert forall|p: (Seq<char>, Seq<char>)| adjacency_pairs(m).contains(p) <==> dependency_pairs(es).contains(p) by {
                if adjacency_pairs(m).contains(p) {
                    let (i, j) = choose|i: int, j: int|
                        0 <= i < m.len() && 0 <= j < m[i].1@.len() && (#[trigger] m[i]).0.view() == p.0
                            && (#[trigger] m[i].1@[j]).view() == p.1;
                    assert(id_texts(m[i].1@)[j] == m[i].1@[j].view());
                    assert(es[i].0 == p.0 && es[i].1.dependencies[j] == p.1);
                }
                if dependency_pairs(es).contains(p) {
                    let (i, j) = choose|i: int, j: int|
                        0 <= i < es.len() && 0 <= j < es[i].1.dependencies.len() && (#[trigger] es[i]).0 == p.0
                            && #[trigger] es[i].1.dependencies[j] == p.1;
                    assert(id_texts(m[i].1@)[j] == m[i].1@[j].view());
                    assert(m[i].0.view() == p.0 && m[i].1@[j].view() == p.1);
                }
            }
            assert(adjacency_pairs(m) =~= dependency_pairs(es));
        }
        let graph = ProjectGraph { outgoing: Vec::new(), incoming: edges };
        let found = graph.impact(&root.to_document_id());
        let mut out: Vec<AssetId> = Vec::new();
        let mut i: usize = 0;
        while i < found.len()
            invariant
                i <= found@.len(),
                asset_texts(out@) == id_texts(found@).take(i as int),
            decreases found@.len() - i,
        {
            let ghost o0 = out@;
            let a = found[i].to_asset_id();
            assert(a.view() == id_texts(found@)[i as int]);
            out.push(a);
            assert(asset_texts(out@) =~= asset_texts(o0).push(a.view()));
            assert(id_texts(found@).take(i as int + 1) =~= id_texts(found@).take(i as int).push(id_texts(found@)[i as int]));
            i = i + 1;
        }
        assert(id_texts(found@).take(i as int) =~= id_texts(found@));
        out
    }
}

} // verus!
