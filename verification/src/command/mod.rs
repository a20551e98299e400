use crate::access::DocumentAccessPlan;
use crate::schema::normalize::normalized;
use crate::schema::{value_diags, SchemaNode};
use crate::content::{content_hash_of, ContentError, DocumentStore, EnvelopeView};
use crate::diagnostics::{any_error, DiagnosticBag, DiagnosticView};
use crate::ids::{lemma_identifier_text, DocumentId, ToolId, TransactionId};
use crate::json::{json_clone, model, JsonModel, JsonValue};
use crate::json::{text_less, text_lt};
use crate::keyed::{ascending, key_index, lemma_insert_contains, lemma_text_insert, text_slot};
use crate::permissions::{Permission, PermissionSet};
use crate::text::{decimal, lemma_decimal_digits, push_zero_padded, string_of, zero_padded};
use vstd::prelude::*;

pub mod builtin;
pub mod diff;
pub mod input;
pub mod report;

use diff::{diff_ids, diff_stores, diff_views, is_store_diff, DiffView, DocumentDiff};

verus! {

/// The documents that commands change.
#[derive(Debug)]
pub struct EngineState {
    pub documents: DocumentStore,
}

impl EngineState {
    /// An empty state.
    pub fn new() -> (s: Self)
        ensures
            s.documents.view() == Seq::<(Seq<char>, EnvelopeView)>::empty(),
    {
        EngineState { documents: DocumentStore::new() }
    }
}

impl Clone for EngineState {
    fn clone(&self) -> (r: Self)
        ensures
            r.documents.view() == self.documents.view(),
    {
        EngineState { documents: self.documents.clone() }
    }
}

/// What a command is, what it takes and what it needs.
#[derive(Debug)]
pub struct CommandDescriptor {
    pub id: ToolId,
    pub title: String,
    pub description: String,
    pub input_schema: JsonValue,
    pub output_schema: JsonValue,
    pub required_permissions: PermissionSet,
    pub side_effects: Vec<String>,
    pub related_tools: Vec<ToolId>,
}

/// A request to run a command.
#[derive(Debug)]
pub struct CommandRequest {
    pub command: ToolId,
    pub input: JsonValue,
    pub dry_run: bool,
}

/// Who runs a command and with which permissions.
#[derive(Debug)]
pub struct CommandContext {
    pub actor: String,
    pub permissions: PermissionSet,
}

/// A command: describes itself, declares its document access, validates its input against
/// a state and applies itself to a state. Implemented by the engine's and toolkits'
/// commands; each implementation states, through the spec functions below, what its
/// methods give.
pub trait CommandHandler {
    /// The identifier its descriptor gives (an implementation that describes itself
    /// states it).
    open spec fn tool_id(&self) -> Seq<char> {
        Seq::empty()
    }

    /// The permissions its descriptor requires (an implementation that describes itself
    /// states them).
    open spec fn needs(&self) -> Set<Permission> {
        Set::empty()
    }

    /// Whether `plan` is the document access it declares for `input`; by default nothing
    /// is stated.
    open spec fn plans(&self, input: JsonValue, plan: Result<DocumentAccessPlan, CommandError>) -> bool {
        true
    }

    /// Whether `s` is the input schema it gives; by default nothing is stated.
    open spec fn shaped(&self, s: SchemaNode) -> bool {
        true
    }

    /// The diagnostics of `input` against `documents`; by default none.
    open spec fn checks(&self, input: JsonValue, documents: Seq<(Seq<char>, EnvelopeView)>) -> Seq<DiagnosticView> {
        Seq::empty()
    }

    /// Whether applying `input` to `before` answers `result` and leaves `after`; by
    /// default nothing is stated.
    open spec fn applies(
        &self,
        input: JsonValue,
        before: Seq<(Seq<char>, EnvelopeView)>,
        after: Seq<(Seq<char>, EnvelopeView)>,
        result: Result<JsonValue, CommandError>,
    ) -> bool {
        true
    }

    fn descriptor(&self) -> (d: CommandDescriptor)
        ensures
            d.id.view() == self.tool_id(),
            d.required_permissions.view() == self.needs(),
    ;

    /// The documents the command needs; a project scan is refused to restricted sessions.
    fn document_access(&self, input: &JsonValue) -> (r: Result<DocumentAccessPlan, CommandError>)
        ensures
            self.plans(*input, r),
    ;

    /// Diagnostics of `input` against `state`.
    fn validate(&self, input: &JsonValue, state: &EngineState) -> (bag: DiagnosticBag)
        ensures
            bag.view() == self.checks(*input, state.documents.view()),
    ;

    fn apply(&self, input: &JsonValue, state: &mut EngineState) -> (r: Result<JsonValue, CommandError>)
        ensures
            self.applies(*input, old(state).documents.view(), final(state).documents.view(), r),
    ;

    /// The structure an input must have before the command plans or runs.
    fn input_schema(&self) -> (s: SchemaNode)
        ensures
            self.shaped(s),
    ;
}

/// Why a command did not run.
#[derive(Debug)]
pub enum CommandError {
    DuplicateCommand(ToolId),
    CommandNotFound(ToolId),
    PermissionDenied(ToolId),
    WorkingSetDenied(Vec<DocumentId>),
    InvalidInput(String),
    ValidationFailed(DiagnosticBag),
    Content(ContentError),
    Serialization(String),
}

/// Registered command handlers, by ascending command identifier.
pub struct CommandRegistry<H> {
    handlers: Vec<H>,
}

/// The identifiers of registered handlers.
pub open spec fn handler_ids<H: CommandHandler>(hs: Seq<H>) -> Seq<Seq<char>> {
    Seq::new(hs.len(), |i: int| hs[i].tool_id())
}

/// The first position of `id` in `ids`.
pub open spec fn first_match(ids: Seq<Seq<char>>, id: Seq<char>) -> int {
    choose|i: int| 0 <= i < ids.len() && ids[i] == id && forall|j: int| 0 <= j < i ==> ids[j] != id
}

/// A position holding `id` with none before it is the first match.
pub proof fn lemma_first_match(ids: Seq<Seq<char>>, id: Seq<char>, i: int)
    requires
        0 <= i < ids.len(),
        ids[i] == id,
        forall|j: int| 0 <= j < i ==> ids[j] != id,
    ensures
        first_match(ids, id) == i,
{
    let k = first_match(ids, id);
    assert(0 <= k < ids.len() && ids[k] == id && forall|j: int| 0 <= j < k ==> ids[j] != id);
    if k < i {
        assert(ids[k] != id);
    } else if k > i {
        assert(ids[i] != id);
    }
}

/// In an ascending list, the position of an identifier is its first match.
pub proof fn lemma_ascending_match(ids: Seq<Seq<char>>, i: int)
    requires
        ascending(ids),
        0 <= i < ids.len(),
    ensures
        first_match(ids, ids[i]) == i,
{
    assert forall|j: int| 0 <= j < i implies ids[j] != ids[i] by {
        assert(text_lt(ids[j], ids[i]));
        crate::json::lemma_text_lt_irreflexive(ids[i]);
    }
    lemma_first_match(ids, ids[i], i);
}

impl<H: CommandHandler> CommandRegistry<H> {
    /// The registered handlers, in identifier order.
    pub closed spec fn entries(&self) -> Seq<H> {
        self.handlers@
    }

    /// The registered command identifiers, in order.
    pub open spec fn view(&self) -> Seq<Seq<char>> {
        handler_ids(self.entries())
    }

    /// The handler that serves `id`: the first registered under it.
    pub open spec fn route(&self, id: Seq<char>) -> H {
        self.entries()[first_match(self.view(), id)]
    }

    /// An empty registry.
    pub fn new() -> (r: Self)
        ensures
            r.entries() == Seq::<H>::empty(),
            r.view() == Seq::<Seq<char>>::empty(),
    {
        let r = CommandRegistry { handlers: Vec::new() };
        assert(r.view() =~= Seq::<Seq<char>>::empty());
        r
    }

    fn find(&self, id: &ToolId) -> (r: Option<usize>)
        ensures
            match r {
                Some(i) => i < self.entries().len() && i == first_match(self.view(), id.view()) && self.view()[i as int]
                    == id.view(),
                None => !self.view().contains(id.view()),
            },
    {
        let ghost v = self.view();
        let mut i: usize = 0;
        while i < self.handlers.len()
            invariant
                v == self.view(),
                v.len() == self.handlers@.len(),
                i <= v.len(),
                forall|j: int| 0 <= j < i ==> #[trigger] v[j] != id.view(),
            decreases v.len() - i,
        {
            let d = self.handlers[i].descriptor();
            if d.id.same(id) {
                proof {
                    lemma_first_match(v, id.view(), i as int);
                }
                return Some(i);
            }
            i = i + 1;
        }
        None
    }

    /// Registers `handler` under the identifier its descriptor gives, unless that
    /// identifier is registered already.
    pub fn register(&mut self, handler: H) -> (r: Result<(), CommandError>)
        requires
            ascending(old(self).view()),
        ensures
            ascending(final(self).view()),
            match r {
                Ok(()) => !old(self).view().contains(handler.tool_id()) && final(self).entries()
                    == old(self).entries().insert(text_slot(old(self).view(), handler.tool_id()), handler)
                    && final(self).view() == old(self).view().insert(
                    text_slot(old(self).view(), handler.tool_id()),
                    handler.tool_id(),
                ),
                Err(CommandError::DuplicateCommand(id)) => old(self).view().contains(handler.tool_id())
                    && id.view() == handler.tool_id() && final(self).entries() == old(self).entries(),
                Err(_) => false,
            },
            r is Ok ==> final(self).view().len() == old(self).view().len() + 1,
            r is Ok ==> forall|y: Seq<char>| #[trigger] final(self).view().contains(y) <==> (old(self).view().contains(y) || y == handler.tool_id()),
            r is Ok ==> final(self).entries().contains(handler),
            forall|g: H| old(self).entries().contains(g) ==> #[trigger] final(self).entries().contains(g),
    {
        let id = handler.descriptor().id;
        if self.find(&id).is_some() {
            return Err(CommandError::DuplicateCommand(id));
        }
        self.insert_handler(id, handler);
        Ok(())
    }

    fn insert_handler(&mut self, id: ToolId, handler: H)
        requires
            ascending(old(self).view()),
            !old(self).view().contains(id.view()),
            id.view() == handler.tool_id(),
        ensures
            ascending(final(self).view()),
            final(self).entries() == old(self).entries().insert(text_slot(old(self).view(), id.view()), handler),
            final(self).view() == old(self).view().insert(text_slot(old(self).view(), id.view()), id.view()),
            final(self).view().len() == old(self).view().len() + 1,
            forall|y: Seq<char>| #[trigger] final(self).view().contains(y) <==> (old(self).view().contains(y) || y == handler.tool_id()),
            final(self).entries().contains(handler),
            forall|g: H| old(self).entries().contains(g) ==> #[trigger] final(self).entries().contains(g),
    {
        let ghost v = self.view();
        let ghost key = id.view();
        let mut pos: usize = 0;
        loop
            invariant
                v == self.view(),
                v.len() == self.handlers@.len(),
                key == id.view(),
                pos <= v.len(),
                forall|j: int| 0 <= j < pos ==> !text_lt(key, #[trigger] v[j]),
            ensures
                pos < v.len() ==> text_lt(key, v[pos as int]),
            decreases v.len() - pos,
        {
            if pos >= self.handlers.len() {
                break;
            }
            let d = self.handlers[pos].descriptor();
            if text_less(id.as_str(), d.id.as_str()) {
                break;
            }
            pos = pos + 1;
        }
        proof {
            lemma_text_insert(v, pos as int, key);
        }
        let ghost hs = self.handlers@;
        self.handlers.insert(pos, handler);
        assert(self.handlers@ == hs.insert(pos as int, handler));
        assert(handler_ids(self.handlers@) =~= v.insert(pos as int, key));
        proof {
            lemma_insert_contains(v, pos as int, key);
            lemma_insert_contains(hs, pos as int, handler);
        }
    }

    /// The handler registered under `id`.
    pub fn handler(&self, id: &ToolId) -> (r: Result<&H, CommandError>)
        ensures
            self.view().contains(id.view()) <==> r is Ok,
            r matches Ok(h) ==> *h == self.route(id.view()),
            r matches Err(e) ==> e matches CommandError::CommandNotFound(x) && x.view() == id.view(),
    {
        match self.find(id) {
            Some(i) => {
                proof {
                    assert(self.view()[i as int] == id.view());
                }
                Ok(&self.handlers[i])
            },
            None => Err(CommandError::CommandNotFound(id.clone())),
        }
    }

    /// The descriptors of every registered command, in identifier order.
    pub fn descriptors(&self) -> (r: Vec<CommandDescriptor>)
        ensures
            described(self.entries(), r@),
    {
        let mut out: Vec<CommandDescriptor> = Vec::new();
        let mut i: usize = 0;
        while i < self.handlers.len()
            invariant
                i <= self.handlers@.len(),
                out@.len() == i,
                forall|j: int| 0 <= j < i ==> #[trigger] out@[j].id.view() == self.handlers@[j].tool_id()
                    && out@[j].required_permissions.view() == self.handlers@[j].needs(),
            decreases self.handlers@.len() - i,
        {
            out.push(self.handlers[i].descriptor());
            i = i + 1;
        }
        out
    }
}

/// `ds` are the descriptors of `hs`, one for one: the same identifiers and permissions.
pub open spec fn described<H: CommandHandler>(hs: Seq<H>, ds: Seq<CommandDescriptor>) -> bool {
    &&& ds.len() == hs.len()
    &&& forall|i: int| 0 <= i < ds.len() ==> (#[trigger] ds[i]).id.view() == hs[i].tool_id()
        && ds[i].required_permissions.view() == hs[i].needs()
}

/// The handler registered under an identifier of an ascending registry is the one that
/// serves it.
pub proof fn lemma_route<H: CommandHandler>(registry: CommandRegistry<H>, h: H)
    requires
        ascending(registry.view()),
        registry.entries().contains(h),
    ensures
        registry.route(h.tool_id()) == h,
{
    let i = choose|i: int| 0 <= i < registry.entries().len() && registry.entries()[i] == h;
    assert(registry.view()[i] == h.tool_id());
    lemma_ascending_match(registry.view(), i);
}

/// Whether a transaction was only previewed or applied.
#[derive(Debug, Clone, Copy, PartialEq, Eq, Structural)]
pub enum TransactionStatus {
    Previewed,
    Applied,
}

/// The outcome of a command that ran.
#[derive(Debug)]
pub struct TransactionReport {
    pub transaction_id: TransactionId,
    pub command: ToolId,
    pub actor: String,
    pub status: TransactionStatus,
    pub output: JsonValue,
    pub document_diffs: Vec<DocumentDiff>,
    pub diagnostics: DiagnosticBag,
}

/// A report as plain values.
pub struct ReportView {
    pub transaction_id: Seq<char>,
    pub command: Seq<char>,
    pub actor: Seq<char>,
    pub status: TransactionStatus,
    pub output: JsonModel,
    pub document_diffs: Seq<DiffView>,
    pub diagnostics: Seq<DiagnosticView>,
}

impl TransactionReport {
    /// The report as plain values.
    pub open spec fn view(&self) -> ReportView {
        ReportView {
            transaction_id: self.transaction_id.view(),
            command: self.command.view(),
            actor: self.actor@,
            status: self.status,
            output: model(self.output),
            document_diffs: diff_views(self.document_diffs@),
            diagnostics: self.diagnostics.view(),
        }
    }
}

impl Clone for TransactionReport {
    fn clone(&self) -> (r: Self)
        ensures
            r.view() == self.view(),
    {
        let mut diffs: Vec<DocumentDiff> = Vec::new();
        let mut i: usize = 0;
        while i < self.document_diffs.len()
            invariant
                i <= self.document_diffs@.len(),
                diffs@.len() == i,
                forall|j: int| 0 <= j < i ==> (#[trigger] diffs@[j]).view() == self.document_diffs@[j].view(),
            decreases self.document_diffs@.len() - i,
        {
            diffs.push(self.document_diffs[i].clone());
            i = i + 1;
        }
        let r = TransactionReport {
            transaction_id: self.transaction_id.clone(),
            command: self.command.clone(),
            actor: self.actor.clone(),
            status: self.status,
            output: json_clone(&self.output),
            document_diffs: diffs,
            diagnostics: self.diagnostics.clone(),
        };
        assert(diff_views(r.document_diffs@) =~= diff_views(self.document_diffs@));
        r
    }
}

/// One entry of the audit log.
#[derive(Debug)]
pub struct AuditRecord {
    pub sequence: u64,
    pub report: TransactionReport,
}

/// The audit log as plain values.
pub open spec fn audit_views(a: Seq<AuditRecord>) -> Seq<(u64, ReportView)> {
    Seq::new(a.len(), |i: int| (a[i].sequence, a[i].report.view()))
}

/// The identifier of transaction `n`: `tx-` and `n` padded to eight digits.
pub open spec fn transaction_name(n: u64) -> Seq<char> {
    "tx-"@ + zero_padded(n as nat, 8)
}

/// Whether `text` names one of `allowed`.
pub open spec fn allows(allowed: Seq<DocumentId>, text: Seq<char>) -> bool {
    exists|i: int| 0 <= i < allowed.len() && (#[trigger] allowed[i]).view() == text
}

/// Whether `permissions` cover a command needing `required`, run for real or as a
/// preview (which also needs `DryRun`).
pub open spec fn authorized(permissions: Set<Permission>, required: Set<Permission>, dry_run: bool) -> bool {
    &&& required.subset_of(permissions)
    &&& (dry_run ==> permissions.contains(Permission::DryRun))
}

/// Decides whether `context` may run a command needing `required` (see `authorized`).
pub fn authorize(required: &PermissionSet, dry_run: bool, permissions: &PermissionSet) -> (r: bool)
    ensures
        r == authorized(permissions.view(), required.view(), dry_run),
{
    if !permissions.contains_all(required) {
        return false;
    }
    if dry_run && !permissions.contains(Permission::DryRun) {
        return false;
    }
    true
}

fn transaction_id(n: u64) -> (id: TransactionId)
    ensures
        id.view() == transaction_name(n),
{
    let mut text = string_of("tx-");
    push_zero_padded(&mut text, n, 8);
    proof {
        reveal_strlit("tx-");
        lemma_decimal_digits(n as nat);
        let t = transaction_name(n);
        let d = decimal(n as nat);
        assert forall|i: int| 0 <= i < t.len() implies crate::ids::is_identifier_char(#[trigger] t[i]) by {
            if i >= 3 {
                let z = zero_padded(n as nat, 8);
                if d.len() >= 8 {
                    assert(z[i - 3] == d[i - 3]);
                } else if i - 3 < 8 - d.len() {
                    assert(z[i - 3] == '0');
                } else {
                    assert(z[i - 3] == d[i - 3 - (8 - d.len())]);
                }
            }
        }
        lemma_identifier_text(t);
    }
    TransactionId::from_static(text.as_str())
}

/// The identifiers of the changes in `ds` that `allowed` does not hold, in order.
pub open spec fn outside(ds: Seq<DiffView>, allowed: Seq<DocumentId>) -> Seq<Seq<char>>
    decreases ds.len(),
{
    if ds.len() == 0 {
        Seq::empty()
    } else {
        outside(ds.drop_last(), allowed) + if allows(allowed, ds.last().document_id) {
            Seq::<Seq<char>>::empty()
        } else {
            seq![ds.last().document_id]
        }
    }
}

fn denied_documents(diffs: &Vec<DocumentDiff>, allowed: &Vec<DocumentId>) -> (d: Vec<DocumentId>)
    ensures
        crate::access::id_texts(d@) == outside(diff_views(diffs@), allowed@),
        d@.len() == 0 <==> forall|i: int| 0 <= i < diffs@.len() ==> allows(allowed@, (#[trigger] diffs@[i]).view().document_id),
{
    let ghost ds = diff_views(diffs@);
    let mut out: Vec<DocumentId> = Vec::new();
    let mut i: usize = 0;
    assert(crate::access::id_texts(out@) =~= outside(ds.take(0), allowed@));
    while i < diffs.len()
        invariant
            ds == diff_views(diffs@),
            i <= diffs@.len(),
            crate::access::id_texts(out@) == outside(ds.take(i as int), allowed@),
            out@.len() == 0 <==> forall|k: int| 0 <= k < i ==> allows(allowed@, (#[trigger] diffs@[k]).view().document_id),
        decreases diffs@.len() - i,
    {
        assert(ds.take(i + 1).drop_last() =~= ds.take(i as int));
        assert(ds.take(i + 1).last() == diffs@[i as int].view());
        let id = &diffs[i].document_id;
        let mut found = false;
        let mut j: usize = 0;
        while j < allowed.len()
            invariant
                j <= allowed@.len(),
                found == exists|m: int| 0 <= m < j && (#[trigger] allowed@[m]).view() == id.view(),
            decreases allowed@.len() - j,
        {
            if allowed[j].same(id) {
                found = true;
            }
            j = j + 1;
        }
        let ghost before = out@;
        if !found {
            out.push(id.clone());
            assert(crate::access::id_texts(out@) =~= crate::access::id_texts(before).push(id.view()));
        } else {
            assert(crate::access::id_texts(out@) =~= crate::access::id_texts(before) + Seq::<Seq<char>>::empty());
        }
        i = i + 1;
    }
    assert(ds.take(i as int) =~= ds);
    out
}

/// Runs commands against a state, with permission checks, dry runs, working-set limits and
/// an audit log.
pub struct CommandExecutor<H> {
    registry: CommandRegistry<H>,
    next_transaction: u64,
    audit: Vec<AuditRecord>,
}

/// The audit log numbers its records from one, and the next transaction follows the last.
pub open spec fn audit_numbered(audit: Seq<(u64, ReportView)>, next: u64) -> bool {
    &&& next == audit.len() + 1
    &&& forall|i: int| 0 <= i < audit.len() ==> (#[trigger] audit[i]).0 == i + 1
}

/// What running `request` does, given the handler that serves it: an unknown command, a
/// missing permission (with `DryRun` for a preview) and an input whose diagnostics hold an
/// error are refused; otherwise the command is applied to a copy of the documents, and its
/// failure is answered as it is; changes outside `allowed` (when given) are refused with
/// the documents that lie outside, in order; otherwise the report lists the handler's
/// output and diagnostics and every change, the documents take the copy unless this is a
/// dry run, and the report is audited. Every refusal leaves documents and audit unchanged.
pub open spec fn scoped_outcome<H: CommandHandler>(
    before: CommandExecutor<H>,
    after: CommandExecutor<H>,
    request: CommandRequest,
    context: CommandContext,
    s0: Seq<(Seq<char>, EnvelopeView)>,
    s1: Seq<(Seq<char>, EnvelopeView)>,
    allowed: Option<Seq<DocumentId>>,
    r: Result<TransactionReport, CommandError>,
) -> bool {
    let id = request.command.view();
    let h = before.route(id);
    let unchanged = s1 == s0 && after.audit_view() == before.audit_view() && after.next_sequence()
        == before.next_sequence();
    &&& after.handlers() == before.handlers()
    &&& if !before.commands().contains(id) {
        r matches Err(CommandError::CommandNotFound(x)) && x.view() == id && unchanged
    } else if !authorized(context.permissions.view(), h.needs(), request.dry_run) {
        r matches Err(CommandError::PermissionDenied(x)) && x.view() == id && unchanged
    } else if any_error(h.checks(request.input, s0)) {
        r matches Err(CommandError::ValidationFailed(bag)) && bag.view() == h.checks(request.input, s0)
            && unchanged
    } else {
        exists|w: Seq<(Seq<char>, EnvelopeView)>, out: Result<JsonValue, CommandError>|
            #[trigger] h.applies(request.input, s0, w, out) && match out {
                Err(e) => r == Err::<TransactionReport, CommandError>(e) && unchanged,
                Ok(o) => exists|ds: Seq<DiffView>|
                    #[trigger] is_store_diff(s0, w, ds) && if allowed matches Some(a) && outside(ds, a).len() > 0 {
                        r matches Err(CommandError::WorkingSetDenied(ids)) && crate::access::id_texts(ids@)
                            == outside(ds, allowed->Some_0) && unchanged
                    } else {
                        r matches Ok(report) && report.output == o && report.view().document_diffs == ds
                            && report.view().diagnostics == h.checks(request.input, s0) && s1 == (if request.dry_run {
                            s0
                        } else {
                            w
                        }) && report_recorded(before, after, request, context, report.view())
                    },
            }
    }
}

impl<H: CommandHandler> CommandExecutor<H> {
    /// The registered handlers, in identifier order.
    pub closed spec fn handlers(&self) -> Seq<H> {
        self.registry.entries()
    }

    /// The registered command identifiers.
    pub open spec fn commands(&self) -> Seq<Seq<char>> {
        handler_ids(self.handlers())
    }

    /// The handler that serves `id`.
    pub open spec fn route(&self, id: Seq<char>) -> H {
        self.handlers()[first_match(self.commands(), id)]
    }

    /// The audit log, as `(sequence, report)` pairs.
    pub closed spec fn audit_view(&self) -> Seq<(u64, ReportView)> {
        audit_views(self.audit@)
    }

    /// The sequence number the next transaction gets.
    pub closed spec fn next_sequence(&self) -> u64 {
        self.next_transaction
    }

    /// An executor over `registry`, before any transaction.
    pub fn new(registry: CommandRegistry<H>) -> (e: Self)
        ensures
            e.handlers() == registry.entries(),
            e.audit_view() == Seq::<(u64, ReportView)>::empty(),
            e.next_sequence() == 1,
            audit_numbered(e.audit_view(), e.next_sequence()),
    {
        let e = CommandExecutor { registry, next_transaction: 1, audit: Vec::new() };
        assert(e.audit_view() =~= Seq::<(u64, ReportView)>::empty());
        e
    }

    /// The sequence number the next transaction gets.
    pub fn sequence(&self) -> (n: u64)
        ensures
            n == self.next_sequence(),
    {
        self.next_transaction
    }

    /// The registry.
    pub fn registry(&self) -> (r: &CommandRegistry<H>)
        ensures
            r.entries() == self.handlers(),
    {
        &self.registry
    }

    /// The audit log, oldest first.
    pub fn audit_log(&self) -> (r: &[AuditRecord])
        ensures
            audit_views(r@) == self.audit_view(),
    {
        self.audit.as_slice()
    }

    /// The document access that the command of `request` declares for its input.
    pub fn document_access(&self, request: &CommandRequest) -> (r: Result<DocumentAccessPlan, CommandError>)
        ensures
            planned(*self, *request, r),
    {
        let handler = self.registry.handler(&request.command)?;
        handler.document_access(&request.input)
    }

    /// The input of `request` checked against its command's input schema, with defaults
    /// filled in: refused when the command is unknown, and with the schema's diagnostics
    /// when any is an error.
    pub fn prepare_input(&self, request: &CommandRequest) -> (r: Result<JsonValue, CommandError>)
        ensures
            prepared(*self, *request, r),
    {
        let handler = self.registry.handler(&request.command)?;
        let schema = handler.input_schema();
        let ghost g = schema;
        let r = match schema.validate_and_normalize(&request.input) {
            Ok(normalized) => Ok(normalized),
            Err(bag) => Err(CommandError::ValidationFailed(bag)),
        };
        assert(self.route(request.command.view()).shaped(g));
        r
    }

    /// Runs `request` with no working-set limit (see `scoped_outcome`).
    pub fn execute(&mut self, request: CommandRequest, context: &CommandContext, state: &mut EngineState) -> (r:
        Result<TransactionReport, CommandError>)
        requires
            old(self).next_sequence() < u64::MAX,
        ensures
            scoped_outcome(
                *old(self),
                *final(self),
                request,
                *context,
                old(state).documents.view(),
                final(state).documents.view(),
                None,
                r,
            ),
            audit_numbered(old(self).audit_view(), old(self).next_sequence()) ==> audit_numbered(
                final(self).audit_view(),
                final(self).next_sequence(),
            ),
            final(self).commands() == old(self).commands(),
            r is Err ==> final(state).documents.view() == old(state).documents.view()
                && final(self).audit_view() == old(self).audit_view()
                && final(self).next_sequence() == old(self).next_sequence(),
            r matches Ok(report) ==> report_recorded(*old(self), *final(self), request, *context, report.view()),
            r matches Ok(report) ==> state_follows(old(state).documents.view(), final(state).documents.view(), request.dry_run, report.view()),
    {
        self.execute_scoped(request, context, state, None)
    }

    /// Runs `request` (see `scoped_outcome`): the command must be registered and
    /// permitted, its input must validate without errors, it is applied to a copy of the
    /// state, and every document it changes must be in `allowed` (when given); then the
    /// state takes the copy unless this is a dry run, and the report is audited under the
    /// next sequence number.
    #[verifier::rlimit(60)]
    pub fn execute_scoped(
        &mut self,
        request: CommandRequest,
        context: &CommandContext,
        state: &mut EngineState,
        allowed: Option<&Vec<DocumentId>>,
    ) -> (r: Result<TransactionReport, CommandError>)
        requires
            old(self).next_sequence() < u64::MAX,
        ensures
            scoped_outcome(
                *old(self),
                *final(self),
                request,
                *context,
                old(state).documents.view(),
                final(state).documents.view(),
                match allowed {
                    Some(a) => Some(a@),
                    None => None,
                },
                r,
            ),
            audit_numbered(old(self).audit_view(), old(self).next_sequence()) ==> audit_numbered(
                final(self).audit_view(),
                final(self).next_sequence(),
            ),
            final(self).commands() == old(self).commands(),
            !old(self).commands().contains(request.command.view()) ==> (r matches Err(
                CommandError::CommandNotFound(x),
            ) && x.view() == request.command.view()),
            old(self).commands().contains(request.command.view()) && request.dry_run
                && !context.permissions.view().contains(Permission::DryRun) ==> (r matches Err(
                CommandError::PermissionDenied(x),
            ) && x.view() == request.command.view()),
            r is Err ==> final(state).documents.view() == old(state).documents.view()
                && final(self).audit_view() == old(self).audit_view()
                && final(self).next_sequence() == old(self).next_sequence(),
            r matches Ok(report) ==> report_recorded(*old(self), *final(self), request, *context, report.view()),
            r matches Ok(report) ==> state_follows(old(state).documents.view(), final(state).documents.view(), request.dry_run, report.view()),
            r matches Ok(report) ==> (allowed matches Some(a) ==> forall|i: int|
                0 <= i < report.view().document_diffs.len() ==> allows(a@, (#[trigger] report.view().document_diffs[i]).document_id)),
    {
        let ghost s0 = state.documents.view();
        let ghost e0 = *self;
        let handler = self.registry.handler(&request.command)?;
        let descriptor = handler.descriptor();
        if !authorize(&descriptor.required_permissions, request.dry_run, &context.permissions) {
            return Err(CommandError::PermissionDenied(request.command));
        }
        let diagnostics = handler.validate(&request.input, state);
        if diagnostics.has_errors() {
            return Err(CommandError::ValidationFailed(diagnostics));
        }
        let mut working = state.clone();
        let applied = handler.apply(&request.input, &mut working);
        let ghost w = working.documents.view();
        assert(handler.applies(request.input, s0, w, applied));
        let output = match applied {
            Ok(o) => o,
            Err(e) => {
                return Err(e);
            },
        };
        let diffs = diff_stores(&state.documents, &working.documents);
        let ghost ds = diff_views(diffs@);
        assert(is_store_diff(s0, w, ds));
        match allowed {
            Some(a) => {
                let denied = denied_documents(&diffs, a);
                if denied.len() > 0 {
                    return Err(CommandError::WorkingSetDenied(denied));
                }
                proof {
                    if outside(ds, a@).len() > 0 {
                        assert(crate::access::id_texts(denied@).len() == 0);
                    }
                }
            },
            None => {},
        }
        let status = if request.dry_run {
            TransactionStatus::Previewed
        } else {
            *state = working;
            TransactionStatus::Applied
        };
        let report = TransactionReport {
            transaction_id: transaction_id(self.next_transaction),
            command: request.command,
            actor: context.actor.clone(),
            status,
            output,
            document_diffs: diffs,
            diagnostics,
        };
        let ghost audit_before = audit_views(self.audit@);
        self.audit.push(AuditRecord { sequence: self.next_transaction, report: report.clone() });
        assert(audit_views(self.audit@) =~= audit_before.push((self.next_transaction, report.view())));
        self.next_transaction = self.next_transaction + 1;
        Ok(report)
    }
}

/// The access plan that the executor answers for `request`: the serving handler's plan,
/// or a refusal of an unknown command.
pub open spec fn planned<H: CommandHandler>(
    e: CommandExecutor<H>,
    request: CommandRequest,
    r: Result<DocumentAccessPlan, CommandError>,
) -> bool {
    if e.commands().contains(request.command.view()) {
        e.route(request.command.view()).plans(request.input, r)
    } else {
        r matches Err(CommandError::CommandNotFound(x)) && x.view() == request.command.view()
    }
}

/// The prepared input that the executor answers for `request`: a refusal of an unknown
/// command; else, against the input schema that the serving handler gives, the input
/// with defaults filled in when its diagnostics hold no error, and those diagnostics
/// otherwise.
pub open spec fn prepared<H: CommandHandler>(
    e: CommandExecutor<H>,
    request: CommandRequest,
    r: Result<JsonValue, CommandError>,
) -> bool {
    if e.commands().contains(request.command.view()) {
        exists|s: SchemaNode|
            #[trigger] e.route(request.command.view()).shaped(s) && match r {
                Ok(n) => !any_error(value_diags(s, request.input, Seq::empty())) && model(n) == normalized(
                    s,
                    model(request.input),
                ),
                Err(CommandError::ValidationFailed(bag)) => any_error(value_diags(s, request.input, Seq::empty()))
                    && bag.view() == value_diags(s, request.input, Seq::empty()),
                Err(_) => false,
            }
    } else {
        r matches Err(CommandError::CommandNotFound(x)) && x.view() == request.command.view()
    }
}

/// On an executor whose log is numbered from one, a run that succeeds appends its report
/// under the log's length plus one, names the transaction after that number, and keeps
/// the log numbered.
pub proof fn lemma_audit_append<H: CommandHandler>(
    before: CommandExecutor<H>,
    after: CommandExecutor<H>,
    request: CommandRequest,
    context: CommandContext,
    report: ReportView,
)
    requires
        audit_numbered(before.audit_view(), before.next_sequence()),
        report_recorded(before, after, request, context, report),
    ensures
        after.audit_view() == before.audit_view().push(((before.audit_view().len() + 1) as u64, report)),
        report.transaction_id == transaction_name((before.audit_view().len() + 1) as u64),
        audit_numbered(after.audit_view(), after.next_sequence()),
{
    let a = after.audit_view();
    assert forall|i: int| 0 <= i < a.len() implies (#[trigger] a[i]).0 == i + 1 by {
        if i < before.audit_view().len() {
            assert(a[i] == before.audit_view()[i]);
        }
    }
}

/// A successful run is audited: the report names the next transaction, the command and
/// the actor, has no error diagnostics, and is appended to the log under the next
/// sequence number, which then advances.
pub open spec fn report_recorded<H: CommandHandler>(
    before: CommandExecutor<H>,
    after: CommandExecutor<H>,
    request: CommandRequest,
    context: CommandContext,
    report: ReportView,
) -> bool {
    &&& before.commands().contains(request.command.view())
    &&& report.transaction_id == transaction_name(before.next_sequence())
    &&& report.command == request.command.view()
    &&& report.actor == context.actor@
    &&& report.status == (if request.dry_run {
        TransactionStatus::Previewed
    } else {
        TransactionStatus::Applied
    })
    &&& !any_error(report.diagnostics)
    &&& after.audit_view() == before.audit_view().push((before.next_sequence(), report))
    &&& after.next_sequence() == before.next_sequence() + 1
}

/// After a successful run the state is unchanged by a dry run, and otherwise holds the
/// changes the report lists; either way the report lists exactly what the command changed.
pub open spec fn state_follows(
    before: Seq<(Seq<char>, EnvelopeView)>,
    after: Seq<(Seq<char>, EnvelopeView)>,
    dry_run: bool,
    report: ReportView,
) -> bool {
    if dry_run {
        &&& after == before
        &&& exists|w: Seq<(Seq<char>, EnvelopeView)>| is_store_diff(before, w, report.document_diffs)
    } else {
        is_store_diff(before, after, report.document_diffs)
    }
}

} // verus!
