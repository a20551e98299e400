//! Authoring sessions: command-driven edits with undo and redo.

use crate::command::{
    report_recorded, state_follows, CommandContext, CommandError, CommandExecutor, CommandHandler, CommandRequest,
    EngineState, TransactionReport, TransactionStatus,
};
use crate::content::{ContentError, EnvelopeView};
use crate::project_path::ProjectPathError;
use vstd::prelude::*;

verus! {

/// A document store as plain values.
pub type StoreView = Seq<(Seq<char>, EnvelopeView)>;

/// The states an authoring project holds: the current one, the ones an undo returns to
/// (most recent last) and the ones a redo returns to (most recent last).
pub struct ProjectView {
    pub current: StoreView,
    pub undo: Seq<StoreView>,
    pub redo: Seq<StoreView>,
}

/// The history after an applied change that led to `after`: the old state can be undone
/// to, and nothing is left to redo.
pub open spec fn recorded(v: ProjectView, after: StoreView) -> ProjectView {
    ProjectView { current: after, undo: v.undo.push(v.current), redo: Seq::empty() }
}

/// The history after an undo, if there is anything to undo.
pub open spec fn undone(v: ProjectView) -> Option<ProjectView> {
    if v.undo.len() == 0 {
        None
    } else {
        Some(ProjectView { current: v.undo.last(), undo: v.undo.drop_last(), redo: v.redo.push(v.current) })
    }
}

/// The history after a redo, if there is anything to redo.
pub open spec fn redone(v: ProjectView) -> Option<ProjectView> {
    if v.redo.len() == 0 {
        None
    } else {
        Some(ProjectView { current: v.redo.last(), undo: v.undo.push(v.current), redo: v.redo.drop_last() })
    }
}

/// The stores of a sequence of states.
pub open spec fn states_view(s: Seq<EngineState>) -> Seq<StoreView> {
    Seq::new(s.len(), |i: int| s[i].documents.view())
}

/// Why an authoring operation failed.
#[derive(Debug)]
pub enum AuthoringError {
    Command(CommandError),
    Content(ContentError),
    ProjectPath(ProjectPathError),
}

/// The engine state an author edits, with its undo and redo history.
#[derive(Debug)]
pub struct AuthoringProject {
    pub state: EngineState,
    undo: Vec<EngineState>,
    redo: Vec<EngineState>,
}

impl AuthoringProject {
    /// The project's states as plain values.
    pub closed spec fn view(&self) -> ProjectView {
        ProjectView { current: self.state.documents.view(), undo: states_view(self.undo@), redo: states_view(self.redo@) }
    }

    /// An empty project with no history.
    pub fn new() -> (p: Self)
        ensures
            p.view() == (ProjectView { current: Seq::empty(), undo: Seq::empty(), redo: Seq::empty() }),
    {
        let p = AuthoringProject { state: EngineState::new(), undo: Vec::new(), redo: Vec::new() };
        assert(p.view().undo =~= Seq::<StoreView>::empty());
        assert(p.view().redo =~= Seq::<StoreView>::empty());
        p
    }

    /// Runs `request` on the current state; an applied change is recorded so that it can
    /// be undone, and clears what could be redone. A failed or previewed request leaves
    /// the history as it was.
    pub fn apply<H: CommandHandler>(
        &mut self,
        executor: &mut CommandExecutor<H>,
        request: CommandRequest,
        context: &CommandContext,
    ) -> (r: Result<TransactionReport, AuthoringError>)
        requires
            old(executor).next_sequence() < u64::MAX,
        ensures
            final(executor).commands() == old(executor).commands(),
            r is Err ==> final(self).view() == old(self).view() && final(executor).audit_view() == old(
                executor,
            ).audit_view() && final(executor).next_sequence() == old(executor).next_sequence(),
            r matches Err(e) ==> e is Command,
            r matches Ok(report) ==> report_recorded(*old(executor), *final(executor), request, *context, report.view()),
            r matches Ok(report) ==> state_follows(
                old(self).view().current,
                final(self).view().current,
                request.dry_run,
                report.view(),
            ),
            r is Ok && request.dry_run ==> final(self).view() == old(self).view(),
            r is Ok && !request.dry_run ==> final(self).view() == recorded(old(self).view(), final(self).view().current),
    {
        let ghost v0 = self.view();
        let before = self.state.clone();
        let ghost dry = request.dry_run;
        match executor.execute(request, context, &mut self.state) {
            Err(e) => {
                assert(self.view() =~= v0);
                Err(AuthoringError::Command(e))
            },
            Ok(report) => {
                if report.status == TransactionStatus::Applied {
                    let ghost u0 = self.undo@;
                    self.undo.push(before);
                    self.redo.clear();
                    assert(states_view(self.undo@) =~= states_view(u0).push(v0.current));
                    assert(states_view(self.redo@) =~= Seq::<StoreView>::empty());
                } else {
                    assert(self.view() =~= v0);
                }
                Ok(report)
            },
        }
    }

    /// Returns to the state before the last recorded change, if there is one.
    pub fn undo(&mut self) -> (r: bool)
        ensures
            r == (old(self).view().undo.len() > 0),
            match undone(old(self).view()) {
                Some(w) => final(self).view() == w,
                None => final(self).view() == old(self).view(),
            },
    {
        let ghost v0 = self.view();
        let ghost u0 = self.undo@;
        let ghost r0 = self.redo@;
        match self.undo.pop() {
            Some(previous) => {
                let current = self.state.clone();
                self.redo.push(current);
                self.state = previous;
                assert(u0 =~= self.undo@.push(previous));
                assert(states_view(self.undo@) =~= v0.undo.drop_last());
                assert(states_view(self.redo@) =~= states_view(r0).push(v0.current));
                true
            },
            None => false,
        }
    }

    /// Returns to the state that the last undo left, if there is one.
    pub fn redo(&mut self) -> (r: bool)
        ensures
            r == (old(self).view().redo.len() > 0),
            match redone(old(self).view()) {
                Some(w) => final(self).view() == w,
                None => final(self).view() == old(self).view(),
            },
    {
        let ghost v0 = self.view();
        let ghost u0 = self.undo@;
        let ghost r0 = self.redo@;
        match self.redo.pop() {
            Some(next) => {
                let current = self.state.clone();
                self.undo.push(current);
                self.state = next;
                assert(r0 =~= self.redo@.push(next));
                assert(states_view(self.redo@) =~= v0.redo.drop_last());
                assert(states_view(self.undo@) =~= states_view(u0).push(v0.current));
                true
            },
            None => false,
        }
    }
}

/// Undoing a recorded change returns to the state before it with the history before it,
/// and leaves the changed state to redo.
pub proof fn lemma_undo_after_change(v: ProjectView, after: StoreView)
    ensures
        undone(recorded(v, after)) == Some(ProjectView { current: v.current, undo: v.undo, redo: seq![after] }),
{
    assert(v.undo.push(v.current).drop_last() =~= v.undo);
    assert(Seq::<StoreView>::empty().push(after) =~= seq![after]);
}

/// A redo takes back what an undo did.
pub proof fn lemma_redo_reverses_undo(v: ProjectView)
    requires
        v.undo.len() > 0,
    ensures
        redone(undone(v)->Some_0) == Some(v),
{
    let w = undone(v)->Some_0;
    assert(w.redo.drop_last() =~= v.redo);
    assert(w.undo.push(w.current) =~= v.undo);
}

/// An undo takes back what a redo did.
pub proof fn lemma_undo_reverses_redo(v: ProjectView)
    requires
        v.redo.len() > 0,
    ensures
        undone(redone(v)->Some_0) == Some(v),
{
    let w = redone(v)->Some_0;
    assert(w.undo.drop_last() =~= v.undo);
    assert(w.redo.push(w.current) =~= v.redo);
}

} // verus!
