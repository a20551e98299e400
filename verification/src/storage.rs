use crate::content::ContentError;
use crate::ids::{AgentSessionId, TransactionId};
use crate::json::JsonValue;
use crate::project_path::{path_rejection, ProjectPath};
use crate::text::{push_str, push_zero_padded, string_of, zero_padded};
use vstd::prelude::*;

verus! {

/// A storage operation that failed.
pub const PROJECT_STORAGE_FAILURE: &'static str = "PROJECT_STORAGE_FAILURE";
/// A transaction plan that cannot be committed.
pub const PROJECT_STORAGE_PLAN_INVALID: &'static str = "PROJECT_STORAGE_PLAN_INVALID";
/// Recovery that found an inconsistent audit log.
pub const PROJECT_STORAGE_RECOVERY_FAILED: &'static str = "PROJECT_STORAGE_RECOVERY_FAILED";
/// A failure injected to test recovery.
pub const PROJECT_STORAGE_INJECTED_FAILURE: &'static str = "PROJECT_STORAGE_INJECTED_FAILURE";

/// Where transaction journals and snapshots are kept.
pub const TRANSACTIONS_ROOT: &'static str = ".agent-sessions/transactions";
/// Where audit records are kept.
pub const AUDIT_ROOT: &'static str = ".agent-sessions/audit";
/// The journal file of a transaction directory.
pub const JOURNAL_FILE: &'static str = "journal.json";
/// The journal and audit format version.
pub const FORMAT_VERSION: u32 = 1;

/// A failed storage operation.
#[derive(Debug)]
pub struct ProjectStorageError {
    pub code: String,
    pub operation: String,
    pub path: Option<ProjectPath>,
    pub message: String,
}

/// How a storage error reads: `<code>: project storage operation `<op>` failed[ for
/// `<path>`]: <message>`.
pub open spec fn storage_error_text(code: Seq<char>, operation: Seq<char>, path: Option<Seq<char>>, message: Seq<char>) -> Seq<char> {
    code + ": project storage operation `"@ + operation + "` failed"@ + match path {
        Some(p) => " for `"@ + p + "`"@,
        None => Seq::empty(),
    } + ": "@ + message
}

impl ProjectStorageError {
    /// The path as text, if any.
    pub open spec fn path_text(&self) -> Option<Seq<char>> {
        match self.path {
            Some(p) => Some(p.view()),
            None => None,
        }
    }

    /// The error's message (see `storage_error_text`).
    pub fn message_text(&self) -> (m: String)
        ensures
            m@ == storage_error_text(self.code@, self.operation@, self.path_text(), self.message@),
    {
        let mut m = string_of(self.code.as_str());
        push_str(&mut m, ": project storage operation `");
        push_str(&mut m, self.operation.as_str());
        push_str(&mut m, "` failed");
        match &self.path {
            Some(p) => {
                push_str(&mut m, " for `");
                push_str(&mut m, p.as_str());
                push_str(&mut m, "`");
            },
            None => {
                proof {
                    reveal_strlit("");
                }
            },
        }
        push_str(&mut m, ": ");
        push_str(&mut m, self.message.as_str());
        m
    }
}

fn plan_error(path: Option<ProjectPath>, message: &str) -> (e: ProjectStorageError)
    ensures
        e.code@ == PROJECT_STORAGE_PLAN_INVALID@,
        e.operation@ == "validate_plan"@,
        e.path == path,
        e.message@ == message@,
{
    ProjectStorageError {
        code: string_of(PROJECT_STORAGE_PLAN_INVALID),
        operation: string_of("validate_plan"),
        path,
        message: string_of(message),
    }
}

/// Where a storage transaction is in its protocol.
#[derive(Debug, Clone, Copy, PartialEq, Eq, Structural)]
pub enum StorageTransactionState {
    Prepared,
    Applying,
    Committed,
    RolledBack,
}

/// A point at which a commit can be made to stop, as a crash would.
#[derive(Debug, Clone, Copy, PartialEq, Eq, Structural)]
pub enum StorageFailurePoint {
    AfterPrepare,
    AfterApplyingMarker,
    AfterOperation(usize),
    BeforeManifest,
    AfterManifest,
    AfterCommitMarker,
    AfterAudit,
}

/// Whether a mutation writes or deletes a file.
#[derive(Debug, Clone, Copy, PartialEq, Eq, Structural)]
pub enum ProjectMutationKind {
    Write,
    Delete,
}

/// One planned change of a project file.
#[derive(Debug)]
pub struct ProjectMutation {
    pub kind: ProjectMutationKind,
    pub path: ProjectPath,
    pub bytes: Option<Vec<u8>>,
    pub manifest: bool,
}

/// A planned change as plain values.
pub struct MutationView {
    pub kind: ProjectMutationKind,
    pub path: Seq<char>,
    pub bytes: Option<Seq<u8>>,
    pub manifest: bool,
}

impl ProjectMutation {
    /// The change as plain values.
    pub open spec fn view(&self) -> MutationView {
        MutationView {
            kind: self.kind,
            path: self.path.view(),
            bytes: match self.bytes {
                Some(b) => Some(b@),
                None => None,
            },
            manifest: self.manifest,
        }
    }
}

/// A set of file changes to commit together.
#[derive(Debug)]
pub struct ProjectTransaction {
    pub transaction_id: TransactionId,
    pub session_id: AgentSessionId,
    pub actor: String,
    pub report: JsonValue,
    operations: Vec<ProjectMutation>,
}

impl ProjectTransaction {
    /// The planned changes, in order.
    pub closed spec fn mutations(&self) -> Seq<MutationView> {
        Seq::new(self.operations@.len(), |i: int| self.operations@[i].view())
    }

    /// The transaction identifier, session and actor as text.
    pub closed spec fn heading(&self) -> (Seq<char>, Seq<char>, Seq<char>) {
        (self.transaction_id.view(), self.session_id.view(), self.actor@)
    }

    /// A transaction with no changes yet.
    pub fn new(transaction_id: TransactionId, session_id: AgentSessionId, actor: &str, report: JsonValue) -> (t: Self)
        ensures
            t.heading() == (transaction_id.view(), session_id.view(), actor@),
            t.mutations() == Seq::<MutationView>::empty(),
    {
        let t = ProjectTransaction { transaction_id, session_id, actor: string_of(actor), report, operations: Vec::new() };
        assert(t.mutations() =~= Seq::<MutationView>::empty());
        t
    }

    fn add(&mut self, m: ProjectMutation)
        ensures
            final(self).mutations() == old(self).mutations().push(m.view()),
            final(self).heading() == old(self).heading(),
    {
        let ghost before = self.mutations();
        let ghost mv = m.view();
        self.operations.push(m);
        assert(self.mutations() =~= before.push(mv));
    }

    /// Plans writing `bytes` to `path`.
    pub fn write(&mut self, path: ProjectPath, bytes: Vec<u8>)
        ensures
            final(self).mutations() == old(self).mutations().push(
                MutationView { kind: ProjectMutationKind::Write, path: path.view(), bytes: Some(bytes@), manifest: false },
            ),
            final(self).heading() == old(self).heading(),
    {
        self.add(ProjectMutation { kind: ProjectMutationKind::Write, path, bytes: Some(bytes), manifest: false });
    }

    /// Plans writing the project manifest's `bytes` to `path`, which is applied last.
    pub fn write_manifest(&mut self, path: ProjectPath, bytes: Vec<u8>)
        ensures
            final(self).mutations() == old(self).mutations().push(
                MutationView { kind: ProjectMutationKind::Write, path: path.view(), bytes: Some(bytes@), manifest: true },
            ),
            final(self).heading() == old(self).heading(),
    {
        self.add(ProjectMutation { kind: ProjectMutationKind::Write, path, bytes: Some(bytes), manifest: true });
    }

    /// Plans deleting `path`.
    pub fn delete(&mut self, path: ProjectPath)
        ensures
            final(self).mutations() == old(self).mutations().push(
                MutationView { kind: ProjectMutationKind::Delete, path: path.view(), bytes: None, manifest: false },
            ),
            final(self).heading() == old(self).heading(),
    {
        self.add(ProjectMutation { kind: ProjectMutationKind::Delete, path, bytes: None, manifest: false });
    }

    /// Whether no change is planned.
    pub fn is_empty(&self) -> (r: bool)
        ensures
            r == (self.mutations().len() == 0),
    {
        self.operations.len() == 0
    }

    /// The planned changes.
    pub fn operations(&self) -> (r: &[ProjectMutation])
        ensures
            Seq::new(r@.len(), |i: int| r@[i].view()) == self.mutations(),
    {
        self.operations.as_slice()
    }
}

/// Why a plan is refused: the message and, for a problem at one change, its path.
pub struct PlanProblem {
    pub path: Option<Seq<char>>,
    pub message: Seq<char>,
}

/// The first problem among the first `n` changes: a path planned twice, or a manifest
/// change that is not a write.
pub open spec fn change_problem(ms: Seq<MutationView>, n: nat) -> Option<PlanProblem>
    decreases n,
{
    if n == 0 {
        None
    } else {
        match change_problem(ms, (n - 1) as nat) {
            Some(p) => Some(p),
            None => {
                let m = ms[n - 1];
                if exists|j: int| 0 <= j < n - 1 && (#[trigger] ms[j]).path == m.path {
                    Some(PlanProblem { path: Some(m.path), message: "transaction contains duplicate target paths"@ })
                } else if m.manifest && m.kind != ProjectMutationKind::Write {
                    Some(PlanProblem { path: Some(m.path), message: "manifest operation must be a write"@ })
                } else {
                    None
                }
            },
        }
    }
}

/// How many changes write the manifest.
pub open spec fn manifest_count(ms: Seq<MutationView>) -> nat
    decreases ms.len(),
{
    if ms.len() == 0 {
        0
    } else {
        manifest_count(ms.drop_last()) + if ms.last().manifest {
            1nat
        } else {
            0nat
        }
    }
}

/// Why a transaction plan is refused, if it is: no changes, then the first problem among
/// them, then more than one manifest write.
pub open spec fn plan_problem(ms: Seq<MutationView>) -> Option<PlanProblem> {
    if ms.len() == 0 {
        Some(PlanProblem { path: None, message: "transaction has no operations"@ })
    } else {
        match change_problem(ms, ms.len()) {
            Some(p) => Some(p),
            None => if manifest_count(ms) > 1 {
                Some(PlanProblem { path: None, message: "transaction contains more than one manifest write"@ })
            } else {
                None
            },
        }
    }
}

proof fn lemma_problem_stays(ms: Seq<MutationView>, k: nat, n: nat)
    requires
        k <= n,
        change_problem(ms, k) is Some,
    ensures
        change_problem(ms, n) == change_problem(ms, k),
    decreases n,
{
    if n > k {
        lemma_problem_stays(ms, k, (n - 1) as nat);
    }
}

/// Checks a transaction plan before anything is written (see `plan_problem`).
pub fn validate_plan(transaction: &ProjectTransaction) -> (r: Result<(), ProjectStorageError>)
    ensures
        match plan_problem(transaction.mutations()) {
            None => r is Ok,
            Some(p) => r matches Err(e) && e.code@ == PROJECT_STORAGE_PLAN_INVALID@ && e.operation@
                == "validate_plan"@ && e.path_text() == p.path && e.message@ == p.message,
        },
{
    let ops = transaction.operations();
    let ghost ms = transaction.mutations();
    if ops.len() == 0 {
        return Err(plan_error(None, "transaction has no operations"));
    }
    let mut manifests: usize = 0;
    let mut i: usize = 0;
    while i < ops.len()
        invariant
            ms == Seq::new(ops@.len(), |k: int| ops@[k].view()),
            ms == transaction.mutations(),
            ops@.len() > 0,
            i <= ops@.len(),
            change_problem(ms, i as nat) is None,
            manifests == manifest_count(ms.take(i as int)),
            manifests <= i,
        decreases ops@.len() - i,
    {
        assert(ms.take(i + 1).drop_last() =~= ms.take(i as int));
        assert(ms[i as int] == ops@[i as int].view());
        let mut j: usize = 0;
        let mut duplicate = false;
        while j < i
            invariant
                ms == Seq::new(ops@.len(), |k: int| ops@[k].view()),
                j <= i < ops@.len(),
                duplicate == exists|k: int| 0 <= k < j && (#[trigger] ms[k]).path == ms[i as int].path,
            decreases i - j,
        {
            if ops[j].path.same(&ops[i].path) {
                duplicate = true;
            }
            proof {
                if duplicate && !(exists|k: int| 0 <= k < j && (#[trigger] ms[k]).path == ms[i as int].path) {
                    assert(ms[j as int].path == ms[i as int].path);
                }
            }
            j = j + 1;
        }
        if duplicate {
            proof {
                assert(change_problem(ms, (i + 1) as nat) == Some(
                    PlanProblem { path: Some(ms[i as int].path), message: "transaction contains duplicate target paths"@ },
                ));
                lemma_problem_stays(ms, (i + 1) as nat, ms.len());
            }
            return Err(plan_error(Some(ops[i].path.clone()), "transaction contains duplicate target paths"));
        }
        if ops[i].manifest {
            if ops[i].kind != ProjectMutationKind::Write {
                proof {
                    assert(change_problem(ms, (i + 1) as nat) == Some(
                        PlanProblem { path: Some(ms[i as int].path), message: "manifest operation must be a write"@ },
                    ));
                    lemma_problem_stays(ms, (i + 1) as nat, ms.len());
                }
                return Err(plan_error(Some(ops[i].path.clone()), "manifest operation must be a write"));
            }
            manifests = manifests + 1;
        }
        i = i + 1;
    }
    assert(ms.take(i as int) =~= ms);
    if manifests > 1 {
        return Err(plan_error(None, "transaction contains more than one manifest write"));
    }
    Ok(())
}

/// What a prepared transaction records of one change: its position, kind and path,
/// whether the file existed, and where its before and after contents are kept.
#[derive(Debug)]
pub struct StorageOperationRecord {
    pub index: usize,
    pub kind: ProjectMutationKind,
    pub path: ProjectPath,
    pub existed_before: bool,
    pub before_snapshot: Option<ProjectPath>,
    pub after_snapshot: Option<ProjectPath>,
    pub manifest: bool,
}

/// The outcome of a commit.
#[derive(Debug)]
pub struct StorageCommit {
    pub transaction_id: TransactionId,
    pub audit_sequence: u64,
    pub state: StorageTransactionState,
}

/// `.agent-sessions/transactions/<id>`.
pub open spec fn transaction_directory_text(id: Seq<char>) -> Seq<char> {
    TRANSACTIONS_ROOT@ + "/"@ + id
}

/// `.agent-sessions/audit/<sequence, 20 digits>.json`.
pub open spec fn audit_path_text(sequence: u64) -> Seq<char> {
    AUDIT_ROOT@ + "/"@ + zero_padded(sequence as nat, 20) + ".json"@
}

/// `<directory>/<side>/<index, 4 digits>.bin`.
pub open spec fn snapshot_text(directory: Seq<char>, side: Seq<char>, index: usize) -> Seq<char> {
    directory.push('/') + side + "/"@ + zero_padded(index as nat, 4) + ".bin"@
}

fn checked_path(text: &str) -> (r: Result<ProjectPath, ContentError>)
    ensures
        path_rejection(text@) is None ==> (r matches Ok(p) && p.view() == text@),
        path_rejection(text@) is Some ==> r matches Err(ContentError::ProjectPath(_)),
{
    match ProjectPath::new(text) {
        Ok(p) => Ok(p),
        Err(e) => Err(ContentError::ProjectPath(e)),
    }
}

/// The directory of a transaction's journal and snapshots.
pub fn transaction_directory(id: &TransactionId) -> (r: Result<ProjectPath, ContentError>)
    ensures
        path_rejection(transaction_directory_text(id.view())) is None ==> (r matches Ok(p) && p.view()
            == transaction_directory_text(id.view())),
        path_rejection(transaction_directory_text(id.view())) is Some ==> r matches Err(ContentError::ProjectPath(_)),
{
    let mut t = string_of(TRANSACTIONS_ROOT);
    push_str(&mut t, "/");
    push_str(&mut t, id.as_str());
    checked_path(t.as_str())
}

/// The journal file of a transaction.
pub fn journal_path(id: &TransactionId) -> (r: Result<ProjectPath, ContentError>)
    ensures
        path_rejection(transaction_directory_text(id.view())) is None && path_rejection(
            transaction_directory_text(id.view()).push('/') + JOURNAL_FILE@,
        ) is None ==> (r matches Ok(p) && p.view() == transaction_directory_text(id.view()).push('/') + JOURNAL_FILE@),
{
    let directory = transaction_directory(id)?;
    match directory.join(JOURNAL_FILE) {
        Ok(p) => Ok(p),
        Err(e) => Err(ContentError::ProjectPath(e)),
    }
}

/// The audit record file of a sequence number.
pub fn audit_path(sequence: u64) -> (r: Result<ProjectPath, ContentError>)
    ensures
        path_rejection(audit_path_text(sequence)) is None ==> (r matches Ok(p) && p.view() == audit_path_text(sequence)),
        path_rejection(audit_path_text(sequence)) is Some ==> r matches Err(ContentError::ProjectPath(_)),
{
    let mut t = string_of(AUDIT_ROOT);
    push_str(&mut t, "/");
    push_zero_padded(&mut t, sequence, 20);
    push_str(&mut t, ".json");
    checked_path(t.as_str())
}

fn snapshot_path(directory: &ProjectPath, side: &str, index: usize) -> (r: Result<ProjectPath, ContentError>)
    ensures
        path_rejection(snapshot_text(directory.view(), side@, index)) is None ==> (r matches Ok(p) && p.view()
            == snapshot_text(directory.view(), side@, index)),
        path_rejection(snapshot_text(directory.view(), side@, index)) is Some ==> r matches Err(ContentError::ProjectPath(_)),
{
    let mut t = string_of(side);
    push_str(&mut t, "/");
    push_zero_padded(&mut t, index as u64, 4);
    push_str(&mut t, ".bin");
    assert(directory.view().push('/') + t@ =~= snapshot_text(directory.view(), side@, index));
    match directory.join(t.as_str()) {
        Ok(p) => Ok(p),
        Err(e) => Err(ContentError::ProjectPath(e)),
    }
}

/// What a prepared transaction records of change `index`, given whether its file
/// existed: a before snapshot when it existed, an after snapshot when it writes bytes.
pub fn operation_record(
    directory: &ProjectPath,
    index: usize,
    mutation: &ProjectMutation,
    existed_before: bool,
) -> (r: Result<StorageOperationRecord, ContentError>)
    ensures
        r matches Ok(rec) ==> {
            &&& rec.index == index
            &&& rec.kind == mutation.kind
            &&& rec.path.view() == mutation.path.view()
            &&& rec.existed_before == existed_before
            &&& rec.manifest == mutation.manifest
            &&& (existed_before <==> rec.before_snapshot is Some)
            &&& (rec.before_snapshot matches Some(b) ==> b.view() == snapshot_text(directory.view(), "before"@, index))
            &&& (mutation.bytes is Some <==> rec.after_snapshot is Some)
            &&& (rec.after_snapshot matches Some(a) ==> a.view() == snapshot_text(directory.view(), "after"@, index))
        },
        (!existed_before || path_rejection(snapshot_text(directory.view(), "before"@, index)) is None) && (
        mutation.bytes is None || path_rejection(snapshot_text(directory.view(), "after"@, index)) is None) ==> r is Ok,
{
    let before_snapshot = if existed_before {
        Some(snapshot_path(directory, "before", index)?)
    } else {
        None
    };
    let after_snapshot = match &mutation.bytes {
        Some(_) => Some(snapshot_path(directory, "after", index)?),
        None => None,
    };
    Ok(
        StorageOperationRecord {
            index,
            kind: mutation.kind,
            path: mutation.path.clone(),
            existed_before,
            before_snapshot,
            after_snapshot,
            manifest: mutation.manifest,
        },
    )
}


/// The positions of the records applied during a commit, in order: every change but the
/// manifest write in order, then the first manifest write, last.
pub open spec fn apply_order_of(manifest: Seq<bool>) -> Seq<usize> {
    non_manifest(manifest, manifest.len()) + match first_manifest(manifest, manifest.len()) {
        Some(i) => seq![i as usize],
        None => Seq::empty(),
    }
}

/// The positions among the first `n` that are not manifest writes.
pub open spec fn non_manifest(manifest: Seq<bool>, n: nat) -> Seq<usize>
    decreases n,
{
    if n == 0 {
        Seq::empty()
    } else {
        non_manifest(manifest, (n - 1) as nat) + if manifest[n - 1] {
            Seq::empty()
        } else {
            seq![(n - 1) as usize]
        }
    }
}

/// The first position among the first `n` that is a manifest write.
pub open spec fn first_manifest(manifest: Seq<bool>, n: nat) -> Option<int>
    decreases n,
{
    if n == 0 {
        None
    } else {
        match first_manifest(manifest, (n - 1) as nat) {
            Some(i) => Some(i),
            None => if manifest[n - 1] {
                Some(n - 1)
            } else {
                None
            },
        }
    }
}

/// Which records a commit applies, in order (see `apply_order_of`).
pub fn apply_order(records: &Vec<StorageOperationRecord>) -> (order: Vec<usize>)
    ensures
        order@ == apply_order_of(Seq::new(records@.len(), |i: int| records@[i].manifest)),
{
    let ghost flags = Seq::new(records@.len(), |i: int| records@[i].manifest);
    let mut order: Vec<usize> = Vec::new();
    let mut manifest: Option<usize> = None;
    let mut i: usize = 0;
    while i < records.len()
        invariant
            flags == Seq::new(records@.len(), |k: int| records@[k].manifest),
            i <= records@.len(),
            order@ == non_manifest(flags, i as nat),
            match manifest {
                Some(m) => first_manifest(flags, i as nat) == Some(m as int),
                None => first_manifest(flags, i as nat) is None,
            },
        decreases records@.len() - i,
    {
        if records[i].manifest {
            if manifest.is_none() {
                manifest = Some(i);
            }
        } else {
            let ghost before = order@;
            order.push(i);
            assert(order@ =~= before + seq![i]);
        }
        proof {
            if records@[i as int].manifest {
                assert(non_manifest(flags, (i + 1) as nat) =~= non_manifest(flags, i as nat));
            }
        }
        i = i + 1;
    }
    match manifest {
        Some(m) => {
            let ghost before = order@;
            order.push(m);
            assert(order@ =~= before + seq![m]);
        },
        None => {
            assert(order@ =~= order@ + Seq::<usize>::empty());
        },
    }
    order
}

/// How rolling back undoes one change.
#[derive(Debug)]
pub enum RollbackStep {
    /// Write the before snapshot back to the path.
    Restore { path: ProjectPath, snapshot: ProjectPath },
    /// Remove the path if it exists (it did not exist before).
    Remove { path: ProjectPath },
}

/// A rollback step as plain values.
pub enum StepView {
    Restore(Seq<char>, Seq<char>),
    Remove(Seq<char>),
}

impl RollbackStep {
    /// The step as plain values.
    pub open spec fn view(&self) -> StepView {
        match self {
            RollbackStep::Restore { path, snapshot } => StepView::Restore(path.view(), snapshot.view()),
            RollbackStep::Remove { path } => StepView::Remove(path.view()),
        }
    }
}

/// The step that undoes a record.
pub open spec fn undo_step(r: StorageOperationRecord) -> StepView {
    match r.before_snapshot {
        Some(s) => StepView::Restore(r.path.view(), s.view()),
        None => StepView::Remove(r.path.view()),
    }
}

/// The steps that undo a journal's records, last record first.
pub fn rollback_plan(records: &Vec<StorageOperationRecord>) -> (steps: Vec<RollbackStep>)
    ensures
        steps@.len() == records@.len(),
        forall|i: int| 0 <= i < records@.len() ==> (#[trigger] steps@[i]).view() == undo_step(records@[records@.len() - 1 - i]),
{
    let mut steps: Vec<RollbackStep> = Vec::new();
    let mut k: usize = records.len();
    while k > 0
        invariant
            k <= records@.len(),
            steps@.len() == records@.len() - k,
            forall|i: int| 0 <= i < steps@.len() ==> (#[trigger] steps@[i]).view() == undo_step(records@[records@.len() - 1 - i]),
        decreases k,
    {
        k = k - 1;
        let r = &records[k];
        let step = match &r.before_snapshot {
            Some(s) => RollbackStep::Restore { path: r.path.clone(), snapshot: s.clone() },
            None => RollbackStep::Remove { path: r.path.clone() },
        };
        steps.push(step);
    }
    steps
}

/// What the files hold after taking `steps` in order, with `snapshots` holding the
/// snapshot contents.
pub open spec fn after_steps(
    files: Map<Seq<char>, Seq<u8>>,
    snapshots: Map<Seq<char>, Seq<u8>>,
    steps: Seq<StepView>,
) -> Map<Seq<char>, Seq<u8>>
    decreases steps.len(),
{
    if steps.len() == 0 {
        files
    } else {
        let f = after_steps(files, snapshots, steps.drop_last());
        match steps.last() {
            StepView::Restore(p, snap) => f.insert(p, snapshots[snap]),
            StepView::Remove(p) => f.remove(p),
        }
    }
}

/// The records were prepared against `files`: their paths are distinct, and each one's
/// before snapshot holds the file's contents when it existed, and is absent when it did
/// not.
pub open spec fn prepared_against(
    records: Seq<StorageOperationRecord>,
    files: Map<Seq<char>, Seq<u8>>,
    snapshots: Map<Seq<char>, Seq<u8>>,
) -> bool {
    &&& forall|i: int, j: int| 0 <= i < j < records.len() ==> (#[trigger] records[i]).path.view() != (#[trigger] records[j]).path.view()
    &&& forall|i: int|
        0 <= i < records.len() ==> match (#[trigger] records[i]).before_snapshot {
            Some(snap) => files.contains_key(records[i].path.view()) && snapshots.contains_key(snap.view())
                && snapshots[snap.view()] == files[records[i].path.view()],
            None => !files.contains_key(records[i].path.view()),
        }
}

/// Whether a record from position `lo` on changes `p`.
pub open spec fn touched(records: Seq<StorageOperationRecord>, lo: int, p: Seq<char>) -> bool {
    exists|i: int| lo <= i < records.len() && (#[trigger] records[i]).path.view() == p
}

/// Whether `m` holds at `p` what `f` holds.
pub open spec fn agrees(m: Map<Seq<char>, Seq<u8>>, f: Map<Seq<char>, Seq<u8>>, p: Seq<char>) -> bool {
    &&& m.contains_key(p) == f.contains_key(p)
    &&& f.contains_key(p) ==> m[p] == f[p]
}

proof fn lemma_rollback_prefix(
    records: Seq<StorageOperationRecord>,
    files: Map<Seq<char>, Seq<u8>>,
    snapshots: Map<Seq<char>, Seq<u8>>,
    changed: Map<Seq<char>, Seq<u8>>,
    steps: Seq<StepView>,
    k: int,
)
    requires
        prepared_against(records, files, snapshots),
        steps.len() == records.len(),
        forall|i: int| 0 <= i < records.len() ==> #[trigger] steps[i] == undo_step(records[records.len() - 1 - i]),
        0 <= k <= steps.len(),
    ensures
        forall|p: Seq<char>|
            #[trigger] touched(records, records.len() - k, p) ==> agrees(after_steps(changed, snapshots, steps.take(k)), files, p),
        forall|p: Seq<char>|
            !#[trigger] touched(records, records.len() - k, p) ==> agrees(after_steps(changed, snapshots, steps.take(k)), changed, p),
    decreases k,
{
    let n = records.len();
    if k == 0 {
        assert(steps.take(0) =~= Seq::<StepView>::empty());
        assert forall|p: Seq<char>| !#[trigger] touched(records, n - k, p) by {}
    } else {
        lemma_rollback_prefix(records, files, snapshots, changed, steps, k - 1);
        let prev = steps.take(k - 1);
        let m = after_steps(changed, snapshots, prev);
        assert(steps.take(k).drop_last() =~= prev);
        assert(steps.take(k).last() == steps[k - 1]);
        let r = records[n - k];
        let q = r.path.view();
        let m2 = after_steps(changed, snapshots, steps.take(k));
        assert(steps[k - 1] == undo_step(r));
        assert(agrees(m2, files, q));
        assert forall|p: Seq<char>| p != q implies m2.contains_key(p) == m.contains_key(p) && (m.contains_key(p) ==> m2[p]
            == m[p]) by {}
        assert forall|p: Seq<char>| #[trigger] touched(records, n - k, p) implies agrees(m2, files, p) by {
            if p != q {
                let i = choose|i: int| n - k <= i < n && (#[trigger] records[i]).path.view() == p;
                assert(i != n - k);
                assert(touched(records, n - (k - 1), p));
            }
        }
        assert forall|p: Seq<char>| !#[trigger] touched(records, n - k, p) implies agrees(m2, changed, p) by {
            assert(records[n - k].path.view() == q);
            if p == q {
                assert(touched(records, n - k, p));
            }
            if touched(records, n - (k - 1), p) {
                let i = choose|i: int| n - (k - 1) <= i < n && (#[trigger] records[i]).path.view() == p;
                assert(touched(records, n - k, p));
            }
        }
    }
}

/// Rolling back restores the files: when the records were prepared against `files`, and
/// the commit changed nothing but the records' paths, taking the rollback steps (those of
/// `rollback_plan`, last record first) gives back exactly `files`, whatever part of the
/// commit had run.
pub proof fn lemma_rollback_restores(
    records: Seq<StorageOperationRecord>,
    files: Map<Seq<char>, Seq<u8>>,
    snapshots: Map<Seq<char>, Seq<u8>>,
    changed: Map<Seq<char>, Seq<u8>>,
    steps: Seq<StepView>,
)
    requires
        prepared_against(records, files, snapshots),
        steps.len() == records.len(),
        forall|i: int| 0 <= i < records.len() ==> #[trigger] steps[i] == undo_step(records[records.len() - 1 - i]),
        forall|p: Seq<char>| !#[trigger] touched(records, 0, p) ==> agrees(changed, files, p),
    ensures
        after_steps(changed, snapshots, steps) == files,
{
    let n = records.len() as int;
    lemma_rollback_prefix(records, files, snapshots, changed, steps, n);
    assert(steps.take(n) =~= steps);
    let m = after_steps(changed, snapshots, steps);
    assert forall|p: Seq<char>| agrees(m, files, p) by {
        if touched(records, n - n, p) {
        } else {
            assert(agrees(m, changed, p));
            assert(agrees(changed, files, p));
        }
    }
    assert forall|p: Seq<char>| m.contains_key(p) <==> files.contains_key(p) by {
        assert(agrees(m, files, p));
    }
    assert(m.dom() =~= files.dom());
    assert forall|p: Seq<char>| #[trigger] m.contains_key(p) implies m[p] == files[p] by {
        assert(agrees(m, files, p));
    }
    assert(m =~= files);
}

} // verus!
