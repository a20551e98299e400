use crate::content::{
    ArtifactEnvelope, ArtifactView, CompileContext, ContentError, DocumentCompiler, DocumentEnvelope,
    DocumentStore, EnvelopeView, ReferenceView,
};
use crate::diagnostics::{any_error, document_diagnostic, Diagnostic, DiagnosticBag, DiagnosticView, Severity};
use crate::ids::{DocumentId, EngineTypeId};
use crate::command::{first_match, lemma_first_match};
use crate::keyed::key_index;
use crate::messages::content_error_text;
use crate::text::{push_str, string_of};
use vstd::prelude::*;

verus! {

/// A reference to a document that is not in the project.
pub const BUILD_UNRESOLVED_REFERENCE: &'static str = "BUILD_UNRESOLVED_REFERENCE";
/// A buildable document type with no compiler.
pub const BUILD_COMPILER_MISSING: &'static str = "BUILD_COMPILER_MISSING";
/// A compiler that failed.
pub const BUILD_COMPILE_FAILED: &'static str = "BUILD_COMPILE_FAILED";
/// A document type that the profile does not build.
pub const BUILD_DOCUMENT_AUTHORING_ONLY: &'static str = "BUILD_DOCUMENT_AUTHORING_ONLY";

/// Registered compilers, in registration order.
pub struct CompilerRegistry<C> {
    compilers: Vec<C>,
}

/// The source types of registered compilers.
pub open spec fn source_types<C: DocumentCompiler>(cs: Seq<C>) -> Seq<Seq<char>> {
    Seq::new(cs.len(), |i: int| cs[i].source())
}

impl<C: DocumentCompiler> CompilerRegistry<C> {
    /// The registered compilers, in registration order.
    pub closed spec fn entries(&self) -> Seq<C> {
        self.compilers@
    }

    /// The registered source types, in registration order.
    pub open spec fn view(&self) -> Seq<Seq<char>> {
        source_types(self.entries())
    }

    /// The compiler that serves documents of type `t`: the first registered for it.
    pub open spec fn route(&self, t: Seq<char>) -> C {
        self.entries()[first_match(self.view(), t)]
    }

    /// An empty registry.
    pub fn new() -> (r: Self)
        ensures
            r.entries() == Seq::<C>::empty(),
            r.view() == Seq::<Seq<char>>::empty(),
    {
        let r = CompilerRegistry { compilers: Vec::new() };
        assert(r.view() =~= Seq::<Seq<char>>::empty());
        r
    }

    fn find(&self, t: &EngineTypeId) -> (r: Option<usize>)
        ensures
            match r {
                Some(i) => i < self.entries().len() && i == first_match(self.view(), t.view()) && self.view()[i as int]
                    == t.view(),
                None => !self.view().contains(t.view()),
            },
    {
        let ghost v = self.view();
        let mut i: usize = 0;
        while i < self.compilers.len()
            invariant
                v == self.view(),
                v.len() == self.compilers@.len(),
                i <= v.len(),
                forall|j: int| 0 <= j < i ==> #[trigger] v[j] != t.view(),
            decreases v.len() - i,
        {
            if self.compilers[i].source_type().same(t) {
                proof {
                    lemma_first_match(v, t.view(), i as int);
                }
                return Some(i);
            }
            i = i + 1;
        }
        None
    }

    /// Registers `compiler` for the type it compiles, unless that type has one already.
    pub fn register(&mut self, compiler: C) -> (r: Result<(), ContentError>)
        ensures
            match r {
                Ok(()) => !old(self).view().contains(compiler.source()) && final(self).entries() == old(
                    self,
                ).entries().push(compiler),
                Err(ContentError::DuplicateCompiler(t)) => old(self).view().contains(compiler.source()) && t.view()
                    == compiler.source() && final(self).entries() == old(self).entries(),
                Err(_) => false,
            },
    {
        let source = compiler.source_type();
        if self.find(&source).is_some() {
            return Err(ContentError::DuplicateCompiler(source));
        }
        self.compilers.push(compiler);
        Ok(())
    }

    /// Whether a compiler is registered for `t`.
    pub fn handles(&self, t: &EngineTypeId) -> (r: bool)
        ensures
            r == self.view().contains(t.view()),
    {
        self.find(t).is_some()
    }

    /// Compiles `document` with the compiler of its type; refused when no compiler is
    /// registered for it.
    pub fn compile(&self, document: &DocumentEnvelope, context: &CompileContext) -> (r: Result<ArtifactEnvelope, ContentError>)
        ensures
            !self.view().contains(document.view().type_id) ==> (r matches Err(ContentError::CompilerNotFound(t))
                && t.view() == document.view().type_id),
            self.view().contains(document.view().type_id) ==> self.route(document.view().type_id).compiles(
                document.view(),
                *context,
                r,
            ),
    {
        proof {
            crate::content::lemma_view_id(*document);
        }
        match self.find(&document.header.type_id) {
            Some(i) => self.compilers[i].compile(document, context),
            None => Err(ContentError::CompilerNotFound(document.header.type_id.clone())),
        }
    }
}

/// How a build treats documents: its name, whether a missing compiler is an error, and
/// the document types it does not build.
#[derive(Debug)]
pub struct BuildProfile {
    pub name: String,
    pub strict: bool,
    pub authoring_only_types: Vec<EngineTypeId>,
}

/// Whether a profile declares a type authoring-only.
pub open spec fn authoring_only(types: Seq<EngineTypeId>, t: Seq<char>) -> bool {
    exists|i: int| 0 <= i < types.len() && (#[trigger] types[i]).view() == t
}

impl BuildProfile {
    /// The strict `development` profile with no authoring-only types.
    pub fn development() -> (p: Self)
        ensures
            p.name@ == "development"@,
            p.strict,
            p.authoring_only_types@.len() == 0,
    {
        BuildProfile { name: string_of("development"), strict: true, authoring_only_types: Vec::new() }
    }

    /// The profile with `type_id` declared authoring-only as well.
    pub fn with_authoring_only_type(self, type_id: EngineTypeId) -> (p: Self)
        ensures
            p.name == self.name,
            p.strict == self.strict,
            forall|t: Seq<char>|
                authoring_only(p.authoring_only_types@, t) <==> (authoring_only(self.authoring_only_types@, t)
                    || t == type_id.view()),
    {
        let mut p = self;
        let ghost before = p.authoring_only_types@;
        if !p.is_authoring_only(&type_id) {
            let ghost id = type_id.view();
            p.authoring_only_types.push(type_id);
            proof {
                assert forall|t: Seq<char>| authoring_only(p.authoring_only_types@, t) <==> (authoring_only(before, t) || t == id) by {
                    if authoring_only(p.authoring_only_types@, t) {
                        let i = choose|i: int| 0 <= i < p.authoring_only_types@.len() && (#[trigger] p.authoring_only_types@[i]).view() == t;
                        if i < before.len() {
                            assert(before[i] == p.authoring_only_types@[i]);
                        }
                    }
                    if authoring_only(before, t) {
                        let i = choose|i: int| 0 <= i < before.len() && (#[trigger] before[i]).view() == t;
                        assert(p.authoring_only_types@[i] == before[i]);
                    }
                    if t == id {
                        assert(p.authoring_only_types@[before.len() as int].view() == id);
                    }
                }
            }
        }
        p
    }

    /// Whether the profile does not build documents of type `type_id`.
    pub fn is_authoring_only(&self, type_id: &EngineTypeId) -> (r: bool)
        ensures
            r == authoring_only(self.authoring_only_types@, type_id.view()),
    {
        let mut i: usize = 0;
        while i < self.authoring_only_types.len()
            invariant
                i <= self.authoring_only_types@.len(),
                forall|j: int| 0 <= j < i ==> (#[trigger] self.authoring_only_types@[j]).view() != type_id.view(),
            decreases self.authoring_only_types@.len() - i,
        {
            if self.authoring_only_types[i].same(type_id) {
                return true;
            }
            i = i + 1;
        }
        false
    }
}

impl Default for BuildProfile {
    /// The `development` profile.
    fn default() -> (p: Self)
        ensures
            p.name@ == "development"@,
            p.strict,
            p.authoring_only_types@.len() == 0,
    {
        BuildProfile::development()
    }
}

/// Why a document produced no artifact.
#[derive(Debug, Clone, Copy, PartialEq, Eq, Structural)]
pub enum BuildSkipReason {
    AuthoringOnly,
    UnresolvedReference,
    MissingCompiler,
    CompilerFailed,
    BlockingDiagnostics,
}

/// A document that produced no artifact, and why.
#[derive(Debug)]
pub struct SkippedDocument {
    pub document_id: DocumentId,
    pub type_id: EngineTypeId,
    pub reason: BuildSkipReason,
    pub message: String,
}

/// A skipped document as plain values.
pub struct SkipView {
    pub document_id: Seq<char>,
    pub type_id: Seq<char>,
    pub reason: BuildSkipReason,
    pub message: Seq<char>,
}

impl SkippedDocument {
    /// The skipped document as plain values.
    pub open spec fn view(&self) -> SkipView {
        SkipView {
            document_id: self.document_id.view(),
            type_id: self.type_id.view(),
            reason: self.reason,
            message: self.message@,
        }
    }
}

/// The artifacts, diagnostics and skipped documents of a build.
#[derive(Debug)]
pub struct BuildReport {
    pub artifacts: Vec<ArtifactEnvelope>,
    pub diagnostics: DiagnosticBag,
    pub skipped_documents: Vec<SkippedDocument>,
}

/// A build report as plain values.
pub struct BuildView {
    pub artifacts: Seq<ArtifactView>,
    pub diagnostics: Seq<DiagnosticView>,
    pub skipped: Seq<SkipView>,
}

/// The skipped documents as plain values.
pub open spec fn skips_view(s: Seq<SkippedDocument>) -> Seq<SkipView> {
    Seq::new(s.len(), |i: int| s[i].view())
}

/// The artifacts as plain values.
pub open spec fn artifacts_view(a: Seq<ArtifactEnvelope>) -> Seq<ArtifactView> {
    Seq::new(a.len(), |i: int| a[i].view())
}

impl BuildReport {
    /// The report as plain values.
    pub open spec fn view(&self) -> BuildView {
        BuildView {
            artifacts: artifacts_view(self.artifacts@),
            diagnostics: self.diagnostics.view(),
            skipped: skips_view(self.skipped_documents@),
        }
    }

    /// Whether no diagnostic is an error.
    pub fn succeeded(&self) -> (r: bool)
        ensures
            r == !any_error(self.view().diagnostics),
    {
        !self.diagnostics.has_errors()
    }

    fn skip(&mut self, document: &DocumentEnvelope, reason: BuildSkipReason, message: String)
        ensures
            final(self).view() == (BuildView {
                skipped: skip_into(
                    old(self).view().skipped,
                    SkipView {
                        document_id: document.view().id,
                        type_id: document.view().type_id,
                        reason,
                        message: message@,
                    },
                ),
                ..old(self).view()
            }),
    {
        proof {
            crate::content::lemma_view_id(*document);
        }
        let ghost sv = skips_view(self.skipped_documents@);
        let ghost id = document.view().id;
        let mut i: usize = 0;
        while i < self.skipped_documents.len()
            invariant
                sv == skips_view(self.skipped_documents@),
                self.view() == old(self).view(),
                id == document.header.id.view(),
                id == document.view().id,
                i <= self.skipped_documents@.len(),
                forall|j: int| 0 <= j < i ==> (#[trigger] sv[j]).document_id != id,
            decreases self.skipped_documents@.len() - i,
        {
            if self.skipped_documents[i].document_id.same(&document.header.id) {
                assert(sv[i as int].document_id == id);
                assert(exists|j: int| 0 <= j < sv.len() && (#[trigger] sv[j]).document_id == id);
                assert(skip_into(
                    sv,
                    SkipView { document_id: id, type_id: document.view().type_id, reason, message: message@ },
                ) == sv);
                assert(self.view() =~= (BuildView {
                    skipped: skip_into(
                        sv,
                        SkipView { document_id: id, type_id: document.view().type_id, reason, message: message@ },
                    ),
                    ..self.view()
                }));
                return;
            }
            i = i + 1;
        }
        let ghost before = self.skipped_documents@;
        let s = SkippedDocument {
            document_id: document.header.id.clone(),
            type_id: document.header.type_id.clone(),
            reason,
            message,
        };
        let ghost v = s.view();
        self.skipped_documents.push(s);
        assert(skips_view(self.skipped_documents@) =~= skips_view(before).push(v));
    }
}

/// The skipped list after skipping `s`, unless its document is skipped already.
pub open spec fn skip_into(sk: Seq<SkipView>, s: SkipView) -> Seq<SkipView> {
    if exists|i: int| 0 <= i < sk.len() && (#[trigger] sk[i]).document_id == s.document_id {
        sk
    } else {
        sk.push(s)
    }
}

/// `<kind> reference points to missing document <target>`.
pub open spec fn unresolved_message(r: ReferenceView) -> Seq<char> {
    r.kind + " reference points to missing document "@ + r.target_document
}

/// Diagnostics and skips after checking the first `k` references of document `d`.
pub open spec fn reference_checks(
    store: Seq<(Seq<char>, EnvelopeView)>,
    d: EnvelopeView,
    st: (Seq<DiagnosticView>, Seq<SkipView>),
    k: nat,
) -> (Seq<DiagnosticView>, Seq<SkipView>)
    decreases k,
{
    if k == 0 {
        st
    } else {
        let before = reference_checks(store, d, st, (k - 1) as nat);
        let r = d.references[k - 1];
        if key_index(store, r.target_document) is Some {
            before
        } else {
            (
                before.0.push(
                    document_diagnostic(BUILD_UNRESOLVED_REFERENCE@, Severity::Error, unresolved_message(r), d.id),
                ),
                skip_into(
                    before.1,
                    SkipView {
                        document_id: d.id,
                        type_id: d.type_id,
                        reason: BuildSkipReason::UnresolvedReference,
                        message: unresolved_message(r),
                    },
                ),
            )
        }
    }
}

/// Diagnostics and skips after checking the references of the first `n` documents.
pub open spec fn references_checked(store: Seq<(Seq<char>, EnvelopeView)>, n: nat) -> (Seq<DiagnosticView>, Seq<SkipView>)
    decreases n,
{
    if n == 0 {
        (Seq::empty(), Seq::empty())
    } else {
        let d = store[n - 1].1;
        reference_checks(store, d, references_checked(store, (n - 1) as nat), d.references.len())
    }
}

/// `document type <t> is declared authoring-only for profile <name>`.
pub open spec fn authoring_message(t: Seq<char>, profile: Seq<char>) -> Seq<char> {
    "document type "@ + t + " is declared authoring-only for profile "@ + profile
}

/// Skips after marking the first `n` documents as blocked by failed validation.
pub open spec fn blocked(
    store: Seq<(Seq<char>, EnvelopeView)>,
    profile: BuildProfile,
    sk: Seq<SkipView>,
    n: nat,
) -> Seq<SkipView>
    decreases n,
{
    if n == 0 {
        sk
    } else {
        let d = store[n - 1].1;
        let before = blocked(store, profile, sk, (n - 1) as nat);
        if authoring_only(profile.authoring_only_types@, d.type_id) {
            skip_into(
                before,
                SkipView {
                    document_id: d.id,
                    type_id: d.type_id,
                    reason: BuildSkipReason::AuthoringOnly,
                    message: authoring_message(d.type_id, profile.name@),
                },
            )
        } else {
            skip_into(
                before,
                SkipView {
                    document_id: d.id,
                    type_id: d.type_id,
                    reason: BuildSkipReason::BlockingDiagnostics,
                    message: "document was not compiled because project validation failed"@,
                },
            )
        }
    }
}

/// What compiling one document gave: nothing (authoring-only), an artifact, no compiler
/// for its type, or a failure with a message.
pub enum CompileOutcome {
    NotBuilt,
    Compiled(ArtifactView),
    NoCompiler(Seq<char>),
    Failed(Seq<char>),
}

/// The outcome of an actual compile result.
pub open spec fn outcome_of(r: Result<ArtifactEnvelope, ContentError>) -> CompileOutcome {
    match r {
        Ok(a) => CompileOutcome::Compiled(a.view()),
        Err(ContentError::CompilerNotFound(t)) => CompileOutcome::NoCompiler(t.view()),
        Err(e) => CompileOutcome::Failed(content_error_text(e)),
    }
}

/// `no compiler is registered for buildable document type <t>`.
pub open spec fn missing_compiler_message(t: Seq<char>) -> Seq<char> {
    "no compiler is registered for buildable document type "@ + t
}

/// The state of the compile phase: diagnostics, skips, and the compiled documents with
/// their artifacts.
pub struct CompileState {
    pub diagnostics: Seq<DiagnosticView>,
    pub skipped: Seq<SkipView>,
    pub compiled: Seq<(EnvelopeView, ArtifactView)>,
}

/// The compile phase after the first `n` documents, whose outcomes are `outcomes`.
pub open spec fn compiled_state(
    store: Seq<(Seq<char>, EnvelopeView)>,
    profile: BuildProfile,
    outcomes: Seq<CompileOutcome>,
    n: nat,
) -> CompileState
    decreases n,
{
    if n == 0 {
        CompileState { diagnostics: Seq::empty(), skipped: Seq::empty(), compiled: Seq::empty() }
    } else {
        let st = compiled_state(store, profile, outcomes, (n - 1) as nat);
        let d = store[n - 1].1;
        if authoring_only(profile.authoring_only_types@, d.type_id) {
            let m = authoring_message(d.type_id, profile.name@);
            CompileState {
                diagnostics: st.diagnostics.push(
                    document_diagnostic(BUILD_DOCUMENT_AUTHORING_ONLY@, Severity::Warning, m, d.id),
                ),
                skipped: skip_into(
                    st.skipped,
                    SkipView { document_id: d.id, type_id: d.type_id, reason: BuildSkipReason::AuthoringOnly, message: m },
                ),
                compiled: st.compiled,
            }
        } else {
            match outcomes[n - 1] {
                CompileOutcome::Compiled(a) => CompileState { compiled: st.compiled.push((d, a)), ..st },
                CompileOutcome::NoCompiler(t) => {
                    let m = missing_compiler_message(t);
                    CompileState {
                        diagnostics: st.diagnostics.push(
                            document_diagnostic(
                                BUILD_COMPILER_MISSING@,
                                if profile.strict {
                                    Severity::Error
                                } else {
                                    Severity::Warning
                                },
                                m,
                                d.id,
                            ),
                        ),
                        skipped: skip_into(
                            st.skipped,
                            SkipView { document_id: d.id, type_id: d.type_id, reason: BuildSkipReason::MissingCompiler, message: m },
                        ),
                        compiled: st.compiled,
                    }
                },
                CompileOutcome::Failed(m) => CompileState {
                    diagnostics: st.diagnostics.push(
                        document_diagnostic(BUILD_COMPILE_FAILED@, Severity::Error, m, d.id),
                    ),
                    skipped: skip_into(
                        st.skipped,
                        SkipView { document_id: d.id, type_id: d.type_id, reason: BuildSkipReason::CompilerFailed, message: m },
                    ),
                    compiled: st.compiled,
                },
                CompileOutcome::NotBuilt => st,
            }
        }
    }
}

/// Skips after withholding the artifacts of the first `n` compiled documents.
pub open spec fn withheld(sk: Seq<SkipView>, compiled: Seq<(EnvelopeView, ArtifactView)>, n: nat) -> Seq<SkipView>
    decreases n,
{
    if n == 0 {
        sk
    } else {
        let d = compiled[n - 1].0;
        skip_into(
            withheld(sk, compiled, (n - 1) as nat),
            SkipView {
                document_id: d.id,
                type_id: d.type_id,
                reason: BuildSkipReason::BlockingDiagnostics,
                message: "artifact withheld because the strict build contains blocking diagnostics"@,
            },
        )
    }
}

/// The report of a build whose compile outcomes are `outcomes`: when references are
/// unresolved, their errors and every document skipped; otherwise the compile phase, with
/// every artifact withheld when it produced an error.
pub open spec fn build_view(
    store: Seq<(Seq<char>, EnvelopeView)>,
    profile: BuildProfile,
    outcomes: Seq<CompileOutcome>,
) -> BuildView {
    let refs = references_checked(store, store.len());
    if any_error(refs.0) {
        BuildView { artifacts: Seq::empty(), diagnostics: refs.0, skipped: blocked(store, profile, refs.1, store.len()) }
    } else {
        let st = compiled_state(store, profile, outcomes, store.len());
        if any_error(st.diagnostics) {
            BuildView {
                artifacts: Seq::empty(),
                diagnostics: st.diagnostics,
                skipped: withheld(st.skipped, st.compiled, st.compiled.len()),
            }
        } else {
            BuildView {
                artifacts: Seq::new(st.compiled.len(), |i: int| st.compiled[i].1),
                diagnostics: st.diagnostics,
                skipped: st.skipped,
            }
        }
    }
}


fn empty_report() -> (r: BuildReport)
    ensures
        r.view() == (BuildView { artifacts: Seq::empty(), diagnostics: Seq::empty(), skipped: Seq::empty() }),
{
    let r = BuildReport { artifacts: Vec::new(), diagnostics: DiagnosticBag::new(), skipped_documents: Vec::new() };
    assert(artifacts_view(r.artifacts@) =~= Seq::<ArtifactView>::empty());
    assert(skips_view(r.skipped_documents@) =~= Seq::<SkipView>::empty());
    r
}

fn located(d: Diagnostic, document: &DocumentEnvelope) -> (r: Diagnostic)
    ensures
        r.view() == (DiagnosticView {
            location: Some(crate::diagnostics::document_location(document.view().id)),
            ..d.view()
        }),
{
    proof {
        crate::content::lemma_view_id(*document);
    }
    d.at_document(document.header.id.clone())
}

fn check_document_references(store: &DocumentStore, document: &DocumentEnvelope, report: &mut BuildReport)
    ensures
        (final(report).view().diagnostics, final(report).view().skipped) == reference_checks(
            store.view(),
            document.view(),
            (old(report).view().diagnostics, old(report).view().skipped),
            document.view().references.len(),
        ),
        final(report).view().artifacts == old(report).view().artifacts,
{
    proof {
        crate::content::lemma_view_references(*document);
    }
    let ghost d = document.view();
    let ghost start = (report.view().diagnostics, report.view().skipped);
    let mut k: usize = 0;
    while k < document.references.len()
        invariant
            d == document.view(),
            d.references == crate::content::references_view(document.references@),
            k <= document.references@.len(),
            (report.view().diagnostics, report.view().skipped) == reference_checks(store.view(), d, start, k as nat),
            report.view().artifacts == old(report).view().artifacts,
        decreases document.references@.len() - k,
    {
        let reference = &document.references[k];
        assert(d.references[k as int] == reference.view());
        if store.get(&reference.target_document).is_err() {
            let mut m = string_of(reference.kind.as_str());
            push_str(&mut m, " reference points to missing document ");
            push_str(&mut m, reference.target_document.as_str());
            let diagnostic = located(Diagnostic::error(BUILD_UNRESOLVED_REFERENCE, m.clone()), document);
            report.diagnostics.push(diagnostic);
            report.skip(document, BuildSkipReason::UnresolvedReference, m);
        }
        k = k + 1;
    }
}

fn reference_phase(store: &DocumentStore) -> (r: BuildReport)
    ensures
        r.view() == (BuildView {
            artifacts: Seq::empty(),
            diagnostics: references_checked(store.view(), store.view().len()).0,
            skipped: references_checked(store.view(), store.view().len()).1,
        }),
{
    let entries = store.iter();
    let ghost sv = store.view();
    let mut report = empty_report();
    let mut n: usize = 0;
    while n < entries.len()
        invariant
            sv == store.view(),
            crate::content::store_view(entries@) == sv,
            n <= entries@.len(),
            report.view().artifacts == Seq::<ArtifactView>::empty(),
            (report.view().diagnostics, report.view().skipped) == references_checked(sv, n as nat),
        decreases entries@.len() - n,
    {
        assert(sv[n as int].1 == entries@[n as int].1.view());
        check_document_references(store, &entries[n].1, &mut report);
        n = n + 1;
    }
    report
}

/// Compiles a store's documents under a profile.
pub struct BuildPipeline<C> {
    compilers: CompilerRegistry<C>,
    profile: BuildProfile,
}

/// The outcomes `outs` fit the documents: none for authoring-only documents, a missing
/// compiler for an unregistered type, and, once the references resolve, for a registered
/// type the outcome of what the compiler serving that type gave for the document under
/// `context`.
pub open spec fn outcomes_fit<C: DocumentCompiler>(
    store: Seq<(Seq<char>, EnvelopeView)>,
    profile: BuildProfile,
    compilers: CompilerRegistry<C>,
    context: CompileContext,
    outs: Seq<CompileOutcome>,
) -> bool {
    &&& outs.len() == store.len()
    &&& forall|i: int| 0 <= i < store.len() ==> (#[trigger] outs[i] is NotBuilt <==> authoring_only(profile.authoring_only_types@, store[i].1.type_id))
    &&& forall|i: int|
        0 <= i < store.len() && !authoring_only(profile.authoring_only_types@, store[i].1.type_id)
            && !compilers.view().contains(store[i].1.type_id) ==> #[trigger] outs[i] == CompileOutcome::NoCompiler(store[i].1.type_id)
    &&& !any_error(references_checked(store, store.len()).0) ==> forall|i: int|
        0 <= i < store.len() && !authoring_only(profile.authoring_only_types@, store[i].1.type_id)
            && compilers.view().contains(store[i].1.type_id) ==> compiled_by(compilers.route(store[i].1.type_id), store[i].1, context, #[trigger] outs[i])
}

/// `out` is the outcome of what `compiler` gave for `document` under `context`.
pub open spec fn compiled_by<C: DocumentCompiler>(compiler: C, document: EnvelopeView, context: CompileContext, out: CompileOutcome) -> bool {
    exists|res: Result<ArtifactEnvelope, ContentError>| #[trigger] compiler.compiles(document, context, res) && out == outcome_of(res)
}

impl<C: DocumentCompiler> BuildPipeline<C> {
    /// The registered compiler types.
    pub open spec fn registered(&self) -> Seq<Seq<char>> {
        self.compilers_spec().view()
    }

    /// The compilers.
    pub closed spec fn compilers_spec(&self) -> CompilerRegistry<C> {
        self.compilers
    }

    /// The profile.
    pub closed spec fn profile_spec(&self) -> BuildProfile {
        self.profile
    }

    /// A pipeline over `compilers` with the default profile.
    pub fn new(compilers: CompilerRegistry<C>) -> (p: Self)
        ensures
            p.compilers_spec() == compilers,
            p.profile_spec().name@ == "development"@,
            p.profile_spec().strict,
            p.profile_spec().authoring_only_types@.len() == 0,
    {
        BuildPipeline { compilers, profile: BuildProfile::default() }
    }

    /// A pipeline over `compilers` with `profile`.
    pub fn with_profile(compilers: CompilerRegistry<C>, profile: BuildProfile) -> (p: Self)
        ensures
            p.compilers_spec() == compilers,
            p.profile_spec() == profile,
    {
        BuildPipeline { compilers, profile }
    }

    /// The profile.
    pub fn profile(&self) -> (p: &BuildProfile)
        ensures
            *p == self.profile_spec(),
    {
        &self.profile
    }

    fn mark_blocked(&self, store: &DocumentStore, report: &mut BuildReport)
        ensures
            final(report).view() == (BuildView {
                skipped: blocked(store.view(), self.profile, old(report).view().skipped, store.view().len()),
                ..old(report).view()
            }),
    {
        let entries = store.iter();
        let ghost sv = store.view();
        let ghost start = report.view().skipped;
        let mut n: usize = 0;
        while n < entries.len()
            invariant
                sv == store.view(),
                crate::content::store_view(entries@) == sv,
                n <= entries@.len(),
                report.view() == (BuildView { skipped: blocked(sv, self.profile, start, n as nat), ..old(report).view() }),
            decreases entries@.len() - n,
        {
            let document = &entries[n].1;
            assert(sv[n as int].1 == document.view());
            proof {
                crate::content::lemma_view_id(*document);
            }
            if self.profile.is_authoring_only(&document.header.type_id) {
                let mut m = string_of("document type ");
                push_str(&mut m, document.header.type_id.as_str());
                push_str(&mut m, " is declared authoring-only for profile ");
                push_str(&mut m, self.profile.name.as_str());
                report.skip(document, BuildSkipReason::AuthoringOnly, m);
            } else {
                report.skip(
                    document,
                    BuildSkipReason::BlockingDiagnostics,
                    string_of("document was not compiled because project validation failed"),
                );
            }
            n = n + 1;
        }
    }

    #[verifier::rlimit(60)]
    fn compile_phase(&self, store: &DocumentStore, context: &CompileContext) -> (r: (BuildReport, Ghost<Seq<CompileOutcome>>))
        ensures
            outcomes_fit(store.view(), self.profile, self.compilers, *context, r.1@),
            !any_error(references_checked(store.view(), store.view().len()).0) ==> r.0.view() == build_view(
                store.view(),
                self.profile,
                r.1@,
            ),
    {
        let entries = store.iter();
        let ghost sv = store.view();
        let ghost p = self.profile;
        let ghost reg = self.compilers.view();
        let mut report = empty_report();
        let mut compiled: Vec<(usize, ArtifactEnvelope)> = Vec::new();
        let ghost mut outs: Seq<CompileOutcome> = Seq::empty();
        let mut n: usize = 0;
        while n < entries.len()
            invariant
                sv == store.view(),
                p == self.profile,
                reg == self.compilers.view(),
                crate::content::store_view(entries@) == sv,
                n <= entries@.len(),
                outs.len() == n,
                forall|i: int| 0 <= i < n ==> (#[trigger] outs[i] is NotBuilt <==> authoring_only(p.authoring_only_types@, sv[i].1.type_id)),
                forall|i: int|
                    0 <= i < n && !authoring_only(p.authoring_only_types@, sv[i].1.type_id) && !reg.contains(sv[i].1.type_id)
                        ==> #[trigger] outs[i] == CompileOutcome::NoCompiler(sv[i].1.type_id),
                forall|i: int|
                    0 <= i < n && !authoring_only(p.authoring_only_types@, sv[i].1.type_id) && reg.contains(sv[i].1.type_id)
                        ==> compiled_by(self.compilers.route(sv[i].1.type_id), sv[i].1, *context, #[trigger] outs[i]),
                forall|j: int| 0 <= j < compiled@.len() ==> (#[trigger] compiled@[j]).0 < n,
                report.view().artifacts == Seq::<ArtifactView>::empty(),
                report.view().diagnostics == compiled_state(sv, p, outs, n as nat).diagnostics,
                report.view().skipped == compiled_state(sv, p, outs, n as nat).skipped,
                Seq::new(compiled@.len(), |j: int| (sv[compiled@[j].0 as int].1, compiled@[j].1.view()))
                    == compiled_state(sv, p, outs, n as nat).compiled,
            decreases entries@.len() - n,
        {
            let document = &entries[n].1;
            assert(sv[n as int].1 == document.view());
            proof {
                crate::content::lemma_view_id(*document);
            }
            let ghost before = compiled_state(sv, p, outs, n as nat);
            let ghost outs0 = outs;
            let ghost cbefore = compiled@;
            if self.profile.is_authoring_only(&document.header.type_id) {
                let mut m = string_of("document type ");
                push_str(&mut m, document.header.type_id.as_str());
                push_str(&mut m, " is declared authoring-only for profile ");
                push_str(&mut m, self.profile.name.as_str());
                report.diagnostics.push(located(Diagnostic::warning(BUILD_DOCUMENT_AUTHORING_ONLY, m.clone()), document));
                report.skip(document, BuildSkipReason::AuthoringOnly, m);
                proof {
                    outs = outs.push(CompileOutcome::NotBuilt);
                }
            } else {
                let result = self.compilers.compile(document, context);
                let ghost outcome = outcome_of(result);
                let ghost gres = result;
                proof {
                    if reg.contains(sv[n as int].1.type_id) {
                        assert(self.compilers.route(sv[n as int].1.type_id).compiles(sv[n as int].1, *context, gres));
                        assert(compiled_by(self.compilers.route(sv[n as int].1.type_id), sv[n as int].1, *context, outcome));
                    }
                }
                match result {
                    Ok(artifact) => {
                        compiled.push((n, artifact));
                    },
                    Err(ContentError::CompilerNotFound(t)) => {
                        let mut m = string_of("no compiler is registered for buildable document type ");
                        push_str(&mut m, t.as_str());
                        let d = if self.profile.strict {
                            Diagnostic::error(BUILD_COMPILER_MISSING, m.clone())
                        } else {
                            Diagnostic::warning(BUILD_COMPILER_MISSING, m.clone())
                        };
                        report.diagnostics.push(located(d, document));
                        report.skip(document, BuildSkipReason::MissingCompiler, m);
                    },
                    Err(e) => {
                        let m = e.message();
                        report.diagnostics.push(located(Diagnostic::error(BUILD_COMPILE_FAILED, m.clone()), document));
                        report.skip(document, BuildSkipReason::CompilerFailed, m);
                    },
                }
                proof {
                    outs = outs.push(outcome);
                }
            }
            proof {
                lemma_compiled_prefix(sv, p, outs0, outs, n as nat);
                assert(compiled_state(sv, p, outs, n as nat) == before);
                assert(Seq::new(compiled@.len(), |j: int| (sv[compiled@[j].0 as int].1, compiled@[j].1.view()))
                    =~= compiled_state(sv, p, outs, (n + 1) as nat).compiled);
            }
            n = n + 1;
        }
        let ghost st = compiled_state(sv, p, outs, n as nat);
        if report.diagnostics.has_errors() {
            let mut k: usize = 0;
            while k < compiled.len()
                invariant
                    sv == store.view(),
                    crate::content::store_view(entries@) == sv,
                    n == entries@.len(),
                    k <= compiled@.len(),
                    forall|j: int| 0 <= j < compiled@.len() ==> (#[trigger] compiled@[j]).0 < n,
                    Seq::new(compiled@.len(), |j: int| (sv[compiled@[j].0 as int].1, compiled@[j].1.view())) == st.compiled,
                    report.view().artifacts == Seq::<ArtifactView>::empty(),
                    report.view().diagnostics == st.diagnostics,
                    report.view().skipped == withheld(st.skipped, st.compiled, k as nat),
                decreases compiled@.len() - k,
            {
                let document = &entries[compiled[k].0].1;
                assert(st.compiled[k as int].0 == document.view());
                report.skip(
                    document,
                    BuildSkipReason::BlockingDiagnostics,
                    string_of("artifact withheld because the strict build contains blocking diagnostics"),
                );
                k = k + 1;
            }
            (report, Ghost(outs))
        } else {
            let mut artifacts: Vec<ArtifactEnvelope> = Vec::new();
            let mut rest = compiled;
            let ghost all = rest@;
            let total = rest.len();
            let mut k: usize = 0;
            while rest.len() > 0
                invariant
                    total == all.len(),
                    k <= all.len(),
                    rest@.len() == all.len() - k,
                    rest@ == all.skip(k as int),
                    artifacts_view(artifacts@) == Seq::new(k as nat, |j: int| all[j].1.view()),
                decreases rest@.len(),
            {
                let ghost before = artifacts@;
                let (_, a) = rest.remove(0);
                assert(a == all[k as int].1);
                let ghost av = a.view();
                artifacts.push(a);
                assert(artifacts_view(artifacts@) =~= artifacts_view(before).push(av));
                assert(artifacts_view(artifacts@) =~= Seq::new((k + 1) as nat, |j: int| all[j].1.view()));
                k = k + 1;
                assert(rest@ =~= all.skip(k as int));
            }
            report.artifacts = artifacts;
            assert(report.view().artifacts =~= Seq::new(st.compiled.len(), |i: int| st.compiled[i].1));
            (report, Ghost(outs))
        }
    }
}

/// Outcomes that fit any store: nothing for authoring-only documents, a missing compiler
/// for the others.
pub open spec fn default_outcomes(store: Seq<(Seq<char>, EnvelopeView)>, profile: BuildProfile) -> Seq<CompileOutcome> {
    Seq::new(
        store.len(),
        |i: int|
            if authoring_only(profile.authoring_only_types@, store[i].1.type_id) {
                CompileOutcome::NotBuilt
            } else {
                CompileOutcome::NoCompiler(store[i].1.type_id)
            },
    )
}

impl<C: DocumentCompiler> BuildPipeline<C> {
    /// Builds `store`: unresolved references fail the build before anything is compiled;
    /// otherwise every buildable document is compiled, and a build with an error keeps no
    /// artifact (see `build_view`, for the compile outcomes that the compilers gave).
    pub fn build(&self, store: &DocumentStore, context: &CompileContext) -> (r: BuildReport)
        ensures
            exists|outs: Seq<CompileOutcome>|
                outcomes_fit(store.view(), self.profile_spec(), self.compilers_spec(), *context, outs) && r.view()
                    == #[trigger] build_view(store.view(), self.profile_spec(), outs),
    {
        let mut report = reference_phase(store);
        if report.diagnostics.has_errors() {
            self.mark_blocked(store, &mut report);
            proof {
                let outs = default_outcomes(store.view(), self.profile);
                assert(outcomes_fit(store.view(), self.profile_spec(), self.compilers_spec(), *context, outs));
                assert(report.view() == build_view(store.view(), self.profile_spec(), outs));
            }
            return report;
        }
        let (report, outs) = self.compile_phase(store, context);
        proof {
            assert(outcomes_fit(store.view(), self.profile_spec(), self.compilers_spec(), *context, outs@));
            assert(report.view() == build_view(store.view(), self.profile_spec(), outs@));
        }
        report
    }
}

/// The compile phase over a prefix does not look at later outcomes.
proof fn lemma_compiled_prefix(
    store: Seq<(Seq<char>, EnvelopeView)>,
    profile: BuildProfile,
    a: Seq<CompileOutcome>,
    b: Seq<CompileOutcome>,
    n: nat,
)
    requires
        n <= a.len(),
        n <= b.len(),
        forall|i: int| 0 <= i < n ==> a[i] == b[i],
    ensures
        compiled_state(store, profile, a, n) == compiled_state(store, profile, b, n),
    decreases n,
{
    if n > 0 {
        lemma_compiled_prefix(store, profile, a, b, (n - 1) as nat);
    }
}


/// A build that reports an error produces no artifact, whatever the compilers gave.
pub proof fn lemma_errors_withhold_artifacts(
    store: Seq<(Seq<char>, EnvelopeView)>,
    profile: BuildProfile,
    outs: Seq<CompileOutcome>,
)
    requires
        any_error(build_view(store, profile, outs).diagnostics),
    ensures
        build_view(store, profile, outs).artifacts.len() == 0,
{
}

/// A reference to a missing document fails the build before any compile outcome counts:
/// the report has an error, no artifact, and the same contents for every outcome.
pub proof fn lemma_unresolved_reference_fails(
    store: Seq<(Seq<char>, EnvelopeView)>,
    profile: BuildProfile,
    outs: Seq<CompileOutcome>,
    other: Seq<CompileOutcome>,
    i: int,
    k: int,
)
    requires
        0 <= i < store.len(),
        0 <= k < store[i].1.references.len(),
        key_index(store, store[i].1.references[k].target_document) is None,
    ensures
        any_error(build_view(store, profile, outs).diagnostics),
        build_view(store, profile, outs).artifacts.len() == 0,
        build_view(store, profile, outs) == build_view(store, profile, other),
{
    lemma_reference_error_found(store, i, k);
}

proof fn lemma_reference_checks_grow(
    store: Seq<(Seq<char>, EnvelopeView)>,
    d: EnvelopeView,
    st: (Seq<DiagnosticView>, Seq<SkipView>),
    k: nat,
)
    ensures
        reference_checks(store, d, st, k).0.len() >= st.0.len(),
        forall|j: int| 0 <= j < st.0.len() ==> #[trigger] reference_checks(store, d, st, k).0[j] == st.0[j],
    decreases k,
{
    if k > 0 {
        lemma_reference_checks_grow(store, d, st, (k - 1) as nat);
    }
}

proof fn lemma_reference_error_in_doc(
    store: Seq<(Seq<char>, EnvelopeView)>,
    d: EnvelopeView,
    st: (Seq<DiagnosticView>, Seq<SkipView>),
    k: nat,
    m: int,
)
    requires
        0 <= m < k <= d.references.len(),
        key_index(store, d.references[m].target_document) is None,
    ensures
        any_error(reference_checks(store, d, st, k).0),
    decreases k,
{
    if m < k - 1 {
        lemma_reference_error_in_doc(store, d, st, (k - 1) as nat, m);
        let before = reference_checks(store, d, st, (k - 1) as nat);
        let w = choose|w: int| 0 <= w < before.0.len() && (#[trigger] before.0[w]).severity == Severity::Error;
        assert(reference_checks(store, d, st, k).0[w] == before.0[w]);
    } else {
        let before = reference_checks(store, d, st, (k - 1) as nat);
        let after = reference_checks(store, d, st, k);
        assert(after.0[before.0.len() as int].severity == Severity::Error);
    }
}

proof fn lemma_references_keep_errors(store: Seq<(Seq<char>, EnvelopeView)>, a: nat, b: nat)
    requires
        a <= b <= store.len(),
        any_error(references_checked(store, a).0),
    ensures
        any_error(references_checked(store, b).0),
    decreases b,
{
    if b > a {
        lemma_references_keep_errors(store, a, (b - 1) as nat);
        let prev = references_checked(store, (b - 1) as nat);
        let d = store[b - 1].1;
        lemma_reference_checks_grow(store, d, prev, d.references.len());
        let w = choose|w: int| 0 <= w < prev.0.len() && (#[trigger] prev.0[w]).severity == Severity::Error;
        assert(references_checked(store, b).0[w] == prev.0[w]);
    }
}

proof fn lemma_reference_error_found(store: Seq<(Seq<char>, EnvelopeView)>, i: int, k: int)
    requires
        0 <= i < store.len(),
        0 <= k < store[i].1.references.len(),
        key_index(store, store[i].1.references[k].target_document) is None,
    ensures
        any_error(references_checked(store, store.len()).0),
{
    let d = store[i].1;
    lemma_reference_error_in_doc(store, d, references_checked(store, i as nat), d.references.len(), k);
    lemma_references_keep_errors(store, (i + 1) as nat, store.len());
}

} // verus!
