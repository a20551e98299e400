//! Project-wide checks: Stage rules and reference resolution over a whole store, and the
//! slug a project identifier is made from.

use crate::content::{DocumentEnvelope, DocumentStore, EnvelopeView, ReferenceView};
use crate::diagnostics::{document_diagnostic, Diagnostic, DiagnosticBag, DiagnosticView, Severity};
use crate::keyed::key_index;
use crate::stage::{stage_diags, validate_stage, StageDocument, STAGE_DOCUMENT_TYPE};
use crate::stage_json::stage_decode;
use crate::text::{chars_of, push_char, push_str, string_of, text_is};
use crate::content::ContentError;
use crate::ids::DocumentId;
use crate::keyed::lemma_key_index;
use crate::project_path::{path_rejection, ProjectPath, ProjectPathError};
use vstd::prelude::*;

verus! {

/// A Stage document whose payload cannot be read as a Stage.
pub const STAGE_PARSE_FAILED: &'static str = "STAGE_PARSE_FAILED";

/// A reference to a document that the store does not hold.
pub const REFERENCE_NOT_FOUND: &'static str = "REFERENCE_NOT_FOUND";

// ---------------------------------------------------------------------------
// slugs
// ---------------------------------------------------------------------------

/// ASCII letters and digits.
pub open spec fn is_ascii_alnum(c: char) -> bool {
    ||| ('0' <= c && c <= '9')
    ||| ('A' <= c && c <= 'Z')
    ||| ('a' <= c && c <= 'z')
}

/// A character of a slug: letters and digits lower-cased, anything else `-`.
pub open spec fn slug_char(c: char) -> char {
    if 'A' <= c && c <= 'Z' {
        ((c as u32) + 32) as char
    } else if is_ascii_alnum(c) {
        c
    } else {
        '-'
    }
}

/// `s` without leading `-`.
pub open spec fn trim_start_dashes(s: Seq<char>) -> Seq<char>
    decreases s.len(),
{
    if s.len() > 0 && s[0] == '-' {
        trim_start_dashes(s.drop_first())
    } else {
        s
    }
}

/// `s` without trailing `-`.
pub open spec fn trim_end_dashes(s: Seq<char>) -> Seq<char>
    decreases s.len(),
{
    if s.len() > 0 && s.last() == '-' {
        trim_end_dashes(s.drop_last())
    } else {
        s
    }
}

/// The slug of a name: each character mapped by `slug_char`, leading and trailing `-`
/// removed, and `game` when nothing is left.
pub open spec fn slug_of(name: Seq<char>) -> Seq<char> {
    let t = trim_end_dashes(trim_start_dashes(name.map_values(|c: char| slug_char(c))));
    if t.len() == 0 {
        "game"@
    } else {
        t
    }
}

fn slug_char_exec(c: char) -> (r: char)
    ensures
        r == slug_char(c),
{
    if 'A' <= c && c <= 'Z' {
        let b: u8 = ((c as u32) + 32) as u8;
        assert(b as u32 == (c as u32) + 32);
        b as char
    } else if ('0' <= c && c <= '9') || ('a' <= c && c <= 'z') {
        c
    } else {
        '-'
    }
}

/// The slug of `name` (see `slug_of`), as a project identifier is made from it.
pub fn slug(name: &str) -> (s: String)
    ensures
        s@ == slug_of(name@),
{
    let chars = chars_of(name);
    let ghost mapped = name@.map_values(|c: char| slug_char(c));
    let mut m: Vec<char> = Vec::new();
    let mut k: usize = 0;
    while k < chars.len()
        invariant
            chars@ == name@,
            mapped == name@.map_values(|c: char| slug_char(c)),
            k <= chars@.len(),
            m@ == mapped.take(k as int),
        decreases chars@.len() - k,
    {
        m.push(slug_char_exec(chars[k]));
        assert(m@ =~= mapped.take(k as int + 1));
        k = k + 1;
    }
    assert(mapped.take(k as int) =~= mapped);
    let mut i: usize = 0;
    assert(m@.skip(0) =~= m@);
    while i < m.len() && m[i] == '-'
        invariant
            i <= m@.len(),
            trim_start_dashes(m@) == trim_start_dashes(m@.skip(i as int)),
        decreases m@.len() - i,
    {
        assert(m@.skip(i as int).drop_first() =~= m@.skip(i as int + 1));
        i = i + 1;
    }
    let ghost t = m@.skip(i as int);
    assert(trim_start_dashes(t) == t);
    let mut j: usize = m.len();
    assert(t.take(t.len() as int) =~= t);
    while j > i && m[j - 1] == '-'
        invariant
            i <= j <= m@.len(),
            t == m@.skip(i as int),
            trim_end_dashes(t) == trim_end_dashes(t.take(j - i)),
        decreases j,
    {
        assert(t.take(j - i).drop_last() =~= t.take(j - i - 1));
        j = j - 1;
    }
    assert(trim_end_dashes(t.take(j - i)) == t.take(j - i));
    if j == i {
        proof {
            reveal_strlit("game");
        }
        return string_of("game");
    }
    let mut out = String::new();
    let mut p: usize = i;
    assert(out@ =~= t.take(0));
    while p < j
        invariant
            i <= p <= j <= m@.len(),
            t == m@.skip(i as int),
            out@ == t.take(p - i),
        decreases j - p,
    {
        push_char(&mut out, m[p]);
        assert(out@ =~= t.take(p - i + 1));
        p = p + 1;
    }
    out
}

// ---------------------------------------------------------------------------
// store checks
// ---------------------------------------------------------------------------

/// The message for a reference to a missing document.
pub open spec fn missing_reference_message(r: ReferenceView) -> Seq<char> {
    r.kind + " reference points to missing document "@ + r.target_document
}

/// The errors for the first `n` references of `d` that point to missing documents.
pub open spec fn reference_diags(store: Seq<(Seq<char>, EnvelopeView)>, d: EnvelopeView, n: int) -> Seq<DiagnosticView>
    decreases n,
{
    if n <= 0 {
        Seq::empty()
    } else {
        reference_diags(store, d, n - 1) + if key_index(store, d.references[n - 1].target_document) is None {
            seq![document_diagnostic(REFERENCE_NOT_FOUND@, Severity::Error, missing_reference_message(d.references[n - 1]), d.id)]
        } else {
            Seq::empty()
        }
    }
}

/// What the Stage rules report of a document: nothing unless it is a Stage document; its
/// diagnostics when its payload reads as a Stage; otherwise one error naming it.
#[verifier::opaque]
pub open spec fn stage_document_diags(d: EnvelopeView) -> Seq<DiagnosticView> {
    if d.type_id == STAGE_DOCUMENT_TYPE@ {
        match stage_decode(d.payload) {
            Ok(sv) => stage_diags(sv),
            Err(m) => seq![
                document_diagnostic(STAGE_PARSE_FAILED@, Severity::Error, "serialization error: "@ + m, d.id),
            ],
        }
    } else {
        Seq::empty()
    }
}

/// What checking the first `n` documents of a store reports, document by document.
pub open spec fn store_diags(store: Seq<(Seq<char>, EnvelopeView)>, n: int) -> Seq<DiagnosticView>
    decreases n,
{
    if n <= 0 {
        Seq::empty()
    } else {
        store_diags(store, n - 1) + stage_document_diags(store[n - 1].1) + reference_diags(
            store,
            store[n - 1].1,
            store[n - 1].1.references.len() as int,
        )
    }
}

/// Reports each reference of `document` whose target `store` does not hold.
pub fn validate_references(document: &DocumentEnvelope, store: &DocumentStore, diagnostics: &mut DiagnosticBag)
    ensures
        final(diagnostics).view() == old(diagnostics).view() + reference_diags(
            store.view(),
            document.view(),
            document.view().references.len() as int,
        ),
{
    let ghost dv = document.view();
    let ghost sv = store.view();
    let ghost start = diagnostics.view();
    proof {
        crate::content::lemma_view_references(*document);
        crate::content::lemma_view_id(*document);
    }
    assert(start + reference_diags(sv, dv, 0) =~= start);
    let mut i: usize = 0;
    while i < document.references.len()
        invariant
            dv == document.view(),
            sv == store.view(),
            dv.references == crate::content::references_view(document.references@),
            dv.id == document.header.id.view(),
            i <= dv.references.len(),
            diagnostics.view() == start + reference_diags(sv, dv, i as int),
        decreases dv.references.len() - i,
    {
        let reference = &document.references[i];
        let ghost rv = dv.references[i as int];
        assert(rv == reference.view());
        let ghost before = diagnostics.view();
        let found = store.get(&reference.target_document).is_ok();
        if !found {
            let mut m = string_of(reference.kind.as_str());
            push_str(&mut m, " reference points to missing document ");
            push_str(&mut m, reference.target_document.as_str());
            proof {
                reveal_strlit(" reference points to missing document ");
            }
            assert(m@ =~= missing_reference_message(rv));
            let diagnostic = Diagnostic::error(REFERENCE_NOT_FOUND, m).at_document(document.header.id.clone());
            diagnostics.push(diagnostic);
        }
        proof {
            let step = if key_index(sv, rv.target_document) is None {
                seq![document_diagnostic(REFERENCE_NOT_FOUND@, Severity::Error, missing_reference_message(rv), dv.id)]
            } else {
                Seq::<DiagnosticView>::empty()
            };
            assert(reference_diags(sv, dv, i as int + 1) == reference_diags(sv, dv, i as int) + step);
            assert(diagnostics.view() =~= before + step);
            assert(diagnostics.view() =~= start + reference_diags(sv, dv, i as int + 1));
        }
        i = i + 1;
    }
}

fn stage_document_check(document: &DocumentEnvelope, diagnostics: &mut DiagnosticBag)
    ensures
        final(diagnostics).view() == old(diagnostics).view() + stage_document_diags(document.view()),
{
    proof {
        crate::content::lemma_view_id(*document);
        reveal(stage_document_diags);
    }
    let ghost start = diagnostics.view();
    if text_is(document.header.type_id.as_str(), STAGE_DOCUMENT_TYPE) {
        match StageDocument::from_envelope(document) {
            Ok(stage) => diagnostics.extend(validate_stage(&stage)),
            Err(e) => {
                let m = e.message();
                let diagnostic = Diagnostic::error(STAGE_PARSE_FAILED, m).at_document(document.header.id.clone());
                diagnostics.push(diagnostic);
            },
        }
    } else {
        assert(diagnostics.view() =~= start + Seq::<DiagnosticView>::empty());
    }
}

/// Checks every document of `store` in order: a Stage document by the Stage rules, then
/// each document's references (see `store_diags`).
pub fn validate_store(store: &DocumentStore) -> (bag: DiagnosticBag)
    ensures
        bag.view() == store_diags(store.view(), store.view().len() as int),
{
    let entries = store.iter();
    let ghost sv = store.view();
    let mut bag = DiagnosticBag::new();
    let mut n: usize = 0;
    while n < entries.len()
        invariant
            crate::content::store_view(entries@) == sv,
            sv == store.view(),
            n <= entries@.len(),
            bag.view() == store_diags(sv, n as int),
        decreases entries@.len() - n,
    {
        let document = &entries[n].1;
        assert(sv[n as int].1 == document.view());
        stage_document_check(document, &mut bag);
        validate_references(document, store, &mut bag);
        assert(bag.view() =~= store_diags(sv, n as int + 1));
        n = n + 1;
    }
    bag
}

// ---------------------------------------------------------------------------
// saving a store
// ---------------------------------------------------------------------------

/// Where each document of a project is stored, by document identifier.
pub open spec fn paths_view(p: Seq<(DocumentId, ProjectPath)>) -> Seq<(Seq<char>, Seq<char>)> {
    Seq::new(p.len(), |i: int| (p[i].0.view(), p[i].1.view()))
}

/// Project paths as texts.
pub open spec fn path_texts(p: Seq<ProjectPath>) -> Seq<Seq<char>> {
    Seq::new(p.len(), |i: int| p[i].view())
}

/// Where a document without a stored file is written: `content/generated/<id>.json`.
pub open spec fn generated_path(id: Seq<char>) -> Seq<char> {
    "content/generated/"@ + id + ".json"@
}

/// The file a held document is written to: its known file, or its generated one.
pub open spec fn path_for(paths: Seq<(Seq<char>, Seq<char>)>, id: Seq<char>) -> Seq<char> {
    match key_index(paths, id) {
        Some(i) => paths[i].1,
        None => generated_path(id),
    }
}

/// The files, among the first `n` known ones, of documents the store no longer holds.
pub open spec fn removed_paths(paths: Seq<(Seq<char>, Seq<char>)>, store: Seq<(Seq<char>, EnvelopeView)>, n: int) -> Seq<Seq<char>>
    decreases n,
{
    if n <= 0 {
        Seq::empty()
    } else {
        removed_paths(paths, store, n - 1) + if key_index(store, paths[n - 1].0) is None {
            seq![paths[n - 1].1]
        } else {
            Seq::empty()
        }
    }
}

/// The generated files of the first `n` held documents that had no known file.
pub open spec fn new_paths(paths: Seq<(Seq<char>, Seq<char>)>, store: Seq<(Seq<char>, EnvelopeView)>, n: int) -> Seq<Seq<char>>
    decreases n,
{
    if n <= 0 {
        Seq::empty()
    } else {
        new_paths(paths, store, n - 1) + if key_index(paths, store[n - 1].0) is None {
            seq![generated_path(store[n - 1].0)]
        } else {
            Seq::empty()
        }
    }
}

/// The first generated file, among the first `n` held documents, that is not a valid
/// project path.
pub open spec fn persist_failure(paths: Seq<(Seq<char>, Seq<char>)>, store: Seq<(Seq<char>, EnvelopeView)>, n: int) -> Option<Seq<char>>
    decreases n,
{
    if n <= 0 {
        None
    } else {
        match persist_failure(paths, store, n - 1) {
            Some(p) => Some(p),
            None => if key_index(paths, store[n - 1].0) is None && path_rejection(generated_path(store[n - 1].0)) is Some {
                Some(generated_path(store[n - 1].0))
            } else {
                None
            },
        }
    }
}

/// Each held document, in store order, with the file it is written to.
pub open spec fn planned_writes(paths: Seq<(Seq<char>, Seq<char>)>, store: Seq<(Seq<char>, EnvelopeView)>) -> Seq<(Seq<char>, Seq<char>)> {
    Seq::new(store.len(), |i: int| (store[i].0, path_for(paths, store[i].0)))
}

/// The first `n` of `ps` that some planned write uses.
pub open spec fn kept_paths(ps: Seq<Seq<char>>, writes: Seq<(Seq<char>, Seq<char>)>, n: int) -> Seq<Seq<char>>
    decreases n,
{
    if n <= 0 {
        Seq::empty()
    } else {
        kept_paths(ps, writes, n - 1) + if exists|i: int| 0 <= i < writes.len() && (#[trigger] writes[i]).1 == ps[n - 1] {
            seq![ps[n - 1]]
        } else {
            Seq::empty()
        }
    }
}

/// What saving a store to its project does: delete the files of documents it no longer
/// holds, write each document it holds to its file, and list in the manifest the files
/// it listed and the new ones, as far as a document is written there.
pub struct PersistPlan {
    pub removed: Vec<ProjectPath>,
    pub writes: Vec<(DocumentId, ProjectPath)>,
    pub manifest_documents: Vec<ProjectPath>,
}

fn find_path(paths: &Vec<(DocumentId, ProjectPath)>, id: &DocumentId) -> (r: Option<usize>)
    ensures
        match r {
            Some(i) => i < paths@.len() && key_index(paths_view(paths@), id.view()) == Some(i as int),
            None => key_index(paths_view(paths@), id.view()) is None,
        },
{
    let ghost v = paths_view(paths@);
    let mut i: usize = 0;
    while i < paths.len()
        invariant
            v == paths_view(paths@),
            i <= v.len(),
            forall|j: int| 0 <= j < i ==> (#[trigger] v[j]).0 != id.view(),
        decreases v.len() - i,
    {
        if paths[i].0.same(id) {
            proof {
                assert(v[i as int].0 == id.view());
                lemma_key_index(v, id.view());
                let w = key_index(v, id.view())->Some_0;
                if w < i {
                    assert(v[w].0 != id.view());
                } else if w > i {
                    assert(v[i as int].0 != id.view());
                }
            }
            return Some(i);
        }
        i = i + 1;
    }
    proof {
        lemma_key_index(v, id.view());
    }
    None
}

proof fn lemma_failure_stays(paths: Seq<(Seq<char>, Seq<char>)>, store: Seq<(Seq<char>, EnvelopeView)>, k: int, n: int)
    requires
        0 <= k <= n,
        persist_failure(paths, store, k) is Some,
    ensures
        persist_failure(paths, store, n) == persist_failure(paths, store, k),
    decreases n,
{
    if n > k {
        lemma_failure_stays(paths, store, k, n - 1);
    }
}

fn generated(id: &DocumentId) -> (r: Result<ProjectPath, ProjectPathError>)
    ensures
        r is Ok <==> path_rejection(generated_path(id.view())) is None,
        r matches Ok(p) ==> p.view() == generated_path(id.view()),
        r matches Err(e) ==> e.path@ == generated_path(id.view()),
{
    let mut text = string_of("content/generated/");
    push_str(&mut text, id.as_str());
    push_str(&mut text, ".json");
    proof {
        reveal_strlit("content/generated/");
        reveal_strlit(".json");
    }
    assert(text@ =~= generated_path(id.view()));
    ProjectPath::new(text.as_str())
}

fn plan_write(paths: &Vec<(DocumentId, ProjectPath)>, id: &DocumentId) -> (r: Result<(ProjectPath, bool), ProjectPathError>)
    ensures
        ({
            let pv = paths_view(paths@);
            match key_index(pv, id.view()) {
                Some(i) => r matches Ok((p, b)) && !b && p.view() == pv[i].1,
                None => if path_rejection(generated_path(id.view())) is None {
                    r matches Ok((p, b)) && b && p.view() == generated_path(id.view())
                } else {
                    r matches Err(e) && e.path@ == generated_path(id.view())
                },
            }
        }),
{
    match find_path(paths, id) {
        Some(i) => Ok((paths[i].1.clone(), false)),
        None => match generated(id) {
            Ok(p) => Ok((p, true)),
            Err(e) => Err(e),
        },
    }
}

fn keep_if_written(candidate: ProjectPath, writes: &Vec<(DocumentId, ProjectPath)>, listed: &mut Vec<ProjectPath>)
    ensures
        path_texts(final(listed)@) == path_texts(old(listed)@) + if exists|i: int|
            0 <= i < paths_view(writes@).len() && (#[trigger] paths_view(writes@)[i]).1 == candidate.view() {
            seq![candidate.view()]
        } else {
            Seq::<Seq<char>>::empty()
        },
{
    let ghost wv = paths_view(writes@);
    let ghost start = path_texts(listed@);
    let mut used = false;
    let mut j: usize = 0;
    while j < writes.len()
        invariant
            wv == paths_view(writes@),
            j <= wv.len(),
            used == exists|i: int| 0 <= i < j && (#[trigger] wv[i]).1 == candidate.view(),
        decreases wv.len() - j,
    {
        assert(wv[j as int].1 == writes@[j as int].1.view());
        if writes[j].1.same(&candidate) {
            used = true;
        }
        j = j + 1;
    }
    let ghost cv = candidate.view();
    if used {
        listed.push(candidate);
        assert(path_texts(listed@) =~= start + seq![cv]);
    } else {
        assert(path_texts(listed@) =~= start + Seq::<Seq<char>>::empty());
    }
}

/// Plans saving `store` to a project whose documents are stored at `paths` and whose
/// manifest lists `manifest_documents` (see `PersistPlan`); refused when a document
/// without a file has no valid generated path.
#[verifier::spinoff_prover]
#[verifier::rlimit(90)]
pub fn plan_persist(
    paths: &Vec<(DocumentId, ProjectPath)>,
    manifest_documents: &Vec<ProjectPath>,
    store: &DocumentStore,
) -> (r: Result<PersistPlan, ProjectPathError>)
    ensures
        ({
            let pv = paths_view(paths@);
            let sv = store.view();
            let writes = planned_writes(pv, sv);
            &&& r is Ok <==> persist_failure(pv, sv, sv.len() as int) is None
            &&& r matches Err(e) ==> Some(e.path@) == persist_failure(pv, sv, sv.len() as int)
            &&& r matches Ok(plan) ==> {
                &&& path_texts(plan.removed@) == removed_paths(pv, sv, pv.len() as int)
                &&& paths_view(plan.writes@) == writes
                &&& path_texts(plan.manifest_documents@) == kept_paths(
                    path_texts(manifest_documents@) + new_paths(pv, sv, sv.len() as int),
                    writes,
                    (manifest_documents@.len() + new_paths(pv, sv, sv.len() as int).len()) as int,
                )
            }
        }),
{
    let ghost pv = paths_view(paths@);
    let ghost sv = store.view();
    let mut removed: Vec<ProjectPath> = Vec::new();
    let mut k: usize = 0;
    assert(path_texts(removed@) =~= removed_paths(pv, sv, 0));
    while k < paths.len()
        invariant
            pv == paths_view(paths@),
            sv == store.view(),
            k <= pv.len(),
            path_texts(removed@) == removed_paths(pv, sv, k as int),
        decreases pv.len() - k,
    {
        let ghost before = removed@;
        assert(paths@[k as int].0.view() == pv[k as int].0);
        if store.get(&paths[k].0).is_err() {
            removed.push(paths[k].1.clone());
        }
        assert(path_texts(removed@) =~= removed_paths(pv, sv, k as int + 1));
        k = k + 1;
    }
    let entries = store.iter();
    let mut writes: Vec<(DocumentId, ProjectPath)> = Vec::new();
    let mut fresh: Vec<ProjectPath> = Vec::new();
    let mut n: usize = 0;
    assert(paths_view(writes@) =~= planned_writes(pv, sv).take(0));
    assert(path_texts(fresh@) =~= new_paths(pv, sv, 0));
    while n < entries.len()
        invariant
            pv == paths_view(paths@),
            sv == store.view(),
            crate::content::store_view(entries@) == sv,
            n <= sv.len(),
            persist_failure(pv, sv, n as int) is None,
            paths_view(writes@) == planned_writes(pv, sv).take(n as int),
            path_texts(fresh@) == new_paths(pv, sv, n as int),
        decreases sv.len() - n,
    {
        let id = &entries[n].0;
        assert(id.view() == sv[n as int].0);
        let ghost w0 = writes@;
        let ghost f0 = fresh@;
        match plan_write(paths, id) {
            Ok((p, is_new)) => {
                let ghost pw = p.view();
                assert(pw == path_for(pv, id.view()));
                let entry = (id.clone(), p.clone());
                assert(entry.0.view() == id.view() && entry.1.view() == pw);
                writes.push(entry);
                if is_new {
                    fresh.push(p);
                }
                assert(path_texts(fresh@) =~= new_paths(pv, sv, n as int + 1));
                assert(paths_view(writes@) =~= paths_view(w0).push((id.view(), pw)));
                assert(planned_writes(pv, sv).take(n as int + 1) =~= planned_writes(pv, sv).take(n as int).push(
                    planned_writes(pv, sv)[n as int],
                ));
                assert(paths_view(writes@) =~= planned_writes(pv, sv).take(n as int + 1));
            },
            Err(e) => {
                proof {
                    lemma_failure_stays(pv, sv, n as int + 1, sv.len() as int);
                }
                return Err(e);
            },
        }
        n = n + 1;
    }
    assert(planned_writes(pv, sv).take(n as int) =~= planned_writes(pv, sv));
    let ghost wv = planned_writes(pv, sv);
    let ghost all = path_texts(manifest_documents@) + path_texts(fresh@);
    let mut listed: Vec<ProjectPath> = Vec::new();
    let mut m: usize = 0;
    assert(path_texts(listed@) =~= kept_paths(all, wv, 0));
    while m < manifest_documents.len()
        invariant
            wv == paths_view(writes@),
            all == path_texts(manifest_documents@) + path_texts(fresh@),
            m <= manifest_documents@.len(),
            path_texts(listed@) == kept_paths(all, wv, m as int),
        decreases manifest_documents@.len() - m,
    {
        let candidate = manifest_documents[m].clone();
        assert(candidate.view() == all[m as int]);
        keep_if_written(candidate, &writes, &mut listed);
        assert(path_texts(listed@) =~= kept_paths(all, wv, m as int + 1));
        m = m + 1;
    }
    let mut f: usize = 0;
    while f < fresh.len()
        invariant
            wv == paths_view(writes@),
            all == path_texts(manifest_documents@) + path_texts(fresh@),
            f <= fresh@.len(),
            path_texts(listed@) == kept_paths(all, wv, manifest_documents@.len() + f),
        decreases fresh@.len() - f,
    {
        let candidate = fresh[f].clone();
        assert(candidate.view() == all[manifest_documents@.len() + f]);
        keep_if_written(candidate, &writes, &mut listed);
        assert(path_texts(listed@) =~= kept_paths(all, wv, manifest_documents@.len() + f + 1));
        f = f + 1;
    }
    Ok(PersistPlan { removed, writes, manifest_documents: listed })
}

} // verus!
