pub mod outcome;

use crate::access::{id_texts, insert_id, DocumentAccessPlan};
use crate::catalog::{ToolCatalog, ToolKind, ToolView};
use crate::command::diff::changed;
use crate::command::{
    allows, planned, prepared, scoped_outcome, CommandContext, CommandError, CommandExecutor, CommandHandler, CommandRequest,
    EngineState, TransactionReport,
};
use crate::content::kept_entries;
use crate::messages::query_error_text;
use crate::content::EnvelopeView;
use crate::ids::{AgentSessionId, DocumentId};
use crate::json::{json_string, json_u64, members_model, model, JsonModel, JsonValue, NumberRepr};
use crate::json_text::render;
use crate::keyed::{ascending, key_index};
use crate::permissions::{permissions_model, Permission, PermissionSet};
use crate::protocol::{CallView, ResultView, ToolCall, ToolResult, ToolResultStatus};
use crate::query::{query_planned, query_ran, QueryContext, QueryError, QueryExecutor, QueryHandler, QueryRequest};
use crate::stage_json::{entry, object_of, text_model};
use crate::text::{decimal, push_decimal, push_str, string_of};
use outcome::{
    access_outcome, access_view, command_outcome, command_view, error_result, error_view, preparation_outcome,
    preparation_view, query_outcome, query_view,
    tool_details, tool_details_json, AGENT_PERMISSION_DENIED, AGENT_TOOL_NOT_FOUND,
};
use vstd::prelude::*;

verus! {

/// A call on a session that has ended.
pub const AGENT_SESSION_NOT_ACTIVE: &'static str = "AGENT_SESSION_NOT_ACTIVE";
/// A call beyond the session's action budget.
pub const AGENT_BUDGET_EXCEEDED: &'static str = "AGENT_BUDGET_EXCEEDED";

/// Where an agent session is in its life.
#[derive(Debug, Clone, Copy, PartialEq, Eq, Structural)]
pub enum SessionStatus {
    Ready,
    Running,
    Completed,
    Stopped,
    BudgetExceeded,
    Failed,
}

/// A status as it is debug-printed.
pub open spec fn status_debug(s: SessionStatus) -> Seq<char> {
    match s {
        SessionStatus::Ready => "Ready"@,
        SessionStatus::Running => "Running"@,
        SessionStatus::Completed => "Completed"@,
        SessionStatus::Stopped => "Stopped"@,
        SessionStatus::BudgetExceeded => "BudgetExceeded"@,
        SessionStatus::Failed => "Failed"@,
    }
}

/// A status as it is written on the wire.
pub open spec fn status_wire(s: SessionStatus) -> Seq<char> {
    match s {
        SessionStatus::Ready => "ready"@,
        SessionStatus::Running => "running"@,
        SessionStatus::Completed => "completed"@,
        SessionStatus::Stopped => "stopped"@,
        SessionStatus::BudgetExceeded => "budget_exceeded"@,
        SessionStatus::Failed => "failed"@,
    }
}

/// Whether a status ends the session.
pub open spec fn terminal(s: SessionStatus) -> bool {
    s is Completed || s is Stopped || s is BudgetExceeded || s is Failed
}

fn status_debug_text(s: SessionStatus) -> (t: &'static str)
    ensures
        t@ == status_debug(s),
{
    match s {
        SessionStatus::Ready => "Ready",
        SessionStatus::Running => "Running",
        SessionStatus::Completed => "Completed",
        SessionStatus::Stopped => "Stopped",
        SessionStatus::BudgetExceeded => "BudgetExceeded",
        SessionStatus::Failed => "Failed",
    }
}

fn status_wire_text(s: SessionStatus) -> (t: &'static str)
    ensures
        t@ == status_wire(s),
{
    match s {
        SessionStatus::Ready => "ready",
        SessionStatus::Running => "running",
        SessionStatus::Completed => "completed",
        SessionStatus::Stopped => "stopped",
        SessionStatus::BudgetExceeded => "budget_exceeded",
        SessionStatus::Failed => "failed",
    }
}

/// How many tool actions a session may take.
#[derive(Debug, Clone, Copy, PartialEq, Eq, Structural)]
pub struct AgentBudget {
    pub max_actions: u32,
}

impl Default for AgentBudget {
    /// Thirty-two actions.
    fn default() -> (b: Self)
        ensures
            b.max_actions == 32,
    {
        AgentBudget { max_actions: 32 }
    }
}

/// One audited tool call of a session.
#[derive(Debug)]
pub struct AgentActionRecord {
    pub sequence: u32,
    pub call: ToolCall,
    pub result: ToolResult,
}

/// A record as plain values.
pub struct RecordView {
    pub sequence: u32,
    pub call: CallView,
    pub result: ResultView,
}

impl AgentActionRecord {
    /// The record as plain values.
    pub open spec fn view(&self) -> RecordView {
        RecordView { sequence: self.sequence, call: self.call.view(), result: self.result.view() }
    }
}

/// The records as plain values.
pub open spec fn records_view(rs: Seq<AgentActionRecord>) -> Seq<RecordView> {
    Seq::new(rs.len(), |i: int| rs[i].view())
}

/// An agent session: who acts, with which permissions, within which documents and budget,
/// and what it did.
#[derive(Debug)]
pub struct AgentSession {
    pub id: AgentSessionId,
    pub objective: String,
    pub permissions: PermissionSet,
    /// Empty means unrestricted; otherwise the only documents any tool may read or change.
    pub working_set: Vec<DocumentId>,
    pub budget: AgentBudget,
    /// Tool attempts that reached the dispatch checks (budget refusals are not counted).
    pub actions_used: u32,
    pub status: SessionStatus,
    pub actions: Vec<AgentActionRecord>,
    pub final_summary: Option<String>,
}

impl AgentSession {
    /// A ready session with the default budget, no working set and no history.
    pub fn new(id: AgentSessionId, objective: &str, permissions: PermissionSet) -> (s: Self)
        ensures
            s.id == id,
            s.objective@ == objective@,
            s.permissions == permissions,
            s.working_set@.len() == 0,
            s.budget.max_actions == 32,
            s.actions_used == 0,
            s.status == SessionStatus::Ready,
            s.actions@.len() == 0,
            s.final_summary is None,
    {
        AgentSession {
            id,
            objective: string_of(objective),
            permissions,
            working_set: Vec::new(),
            budget: AgentBudget::default(),
            actions_used: 0,
            status: SessionStatus::Ready,
            actions: Vec::new(),
            final_summary: None,
        }
    }

    /// The working set as ascending unique identifiers, or `None` when unrestricted.
    pub fn allowed_documents(&self) -> (r: Option<Vec<DocumentId>>)
        ensures
            self.working_set@.len() == 0 <==> r is None,
            r matches Some(v) ==> ascending(id_texts(v@)) && id_texts(v@).to_set() == id_texts(
                self.working_set@,
            ).to_set(),
    {
        if self.working_set.len() == 0 {
            return None;
        }
        let mut out: Vec<DocumentId> = Vec::new();
        let mut i: usize = 0;
        assert(id_texts(out@).to_set() =~= id_texts(self.working_set@.take(0)).to_set());
        while i < self.working_set.len()
            invariant
                i <= self.working_set@.len(),
                ascending(id_texts(out@)),
                id_texts(out@).to_set() == id_texts(self.working_set@.take(i as int)).to_set(),
            decreases self.working_set@.len() - i,
        {
            insert_id(&mut out, self.working_set[i].clone());
            assert(id_texts(self.working_set@.take(i + 1)) =~= id_texts(self.working_set@.take(i as int)).push(
                self.working_set@[i as int].view(),
            ));
            proof {
                crate::keyed::lemma_push_to_set(id_texts(self.working_set@.take(i as int)), self.working_set@[i as int].view());
            }
            i = i + 1;
        }
        assert(self.working_set@.take(i as int) =~= self.working_set@);
        Some(out)
    }

    /// Whether the session has ended.
    pub fn is_terminal(&self) -> (r: bool)
        ensures
            r == terminal(self.status),
    {
        match self.status {
            SessionStatus::Completed | SessionStatus::Stopped | SessionStatus::BudgetExceeded | SessionStatus::Failed => true,
            _ => false,
        }
    }
}

/// What a driver asks the host to do next.
#[derive(Debug)]
pub enum AgentDirective {
    Tool(ToolCall),
    Complete { summary: String },
    Stop { reason: String },
}

/// Why an agent loop ended without completing.
#[derive(Debug)]
pub enum AgentHostError {
    BudgetExceeded,
    SessionNotActive(SessionStatus),
    ToolFailed(String),
    Driver(String),
}

/// How a host error reads.
pub open spec fn host_error_text(e: AgentHostError) -> Seq<char> {
    match e {
        AgentHostError::BudgetExceeded => "agent action budget exceeded"@,
        AgentHostError::SessionNotActive(s) => "agent session is not active: "@ + status_debug(s),
        AgentHostError::ToolFailed(m) => "agent tool failed: "@ + m@,
        AgentHostError::Driver(m) => "agent driver failed: "@ + m@,
    }
}

impl AgentHostError {
    /// The error's message (see `host_error_text`).
    pub fn message(&self) -> (m: String)
        ensures
            m@ == host_error_text(*self),
    {
        match self {
            AgentHostError::BudgetExceeded => string_of("agent action budget exceeded"),
            AgentHostError::SessionNotActive(s) => {
                let mut m = string_of("agent session is not active: ");
                push_str(&mut m, status_debug_text(*s));
                m
            },
            AgentHostError::ToolFailed(t) => {
                let mut m = string_of("agent tool failed: ");
                push_str(&mut m, t.as_str());
                m
            },
            AgentHostError::Driver(t) => {
                let mut m = string_of("agent driver failed: ");
                push_str(&mut m, t.as_str());
                m
            },
        }
    }
}

/// The last answer as a value.
pub open spec fn last_value(last: Option<&ToolResult>) -> Option<ToolResult> {
    match last {
        Some(t) => Some(*t),
        None => None,
    }
}

/// Decides a session's next action; implemented by agents, scripts and workbenches.
pub trait AgentLoopDriver: Sized {
    /// Whether, handed `session`, `catalog` and the last answer `last`, the driver may
    /// answer `r` and become `after`; by default nothing is stated.
    open spec fn answers(
        &self,
        after: Self,
        session: AgentSession,
        catalog: ToolCatalog,
        last: Option<ToolResult>,
        r: Result<AgentDirective, AgentHostError>,
    ) -> bool {
        true
    }

    fn next_action(
        &mut self,
        session: &AgentSession,
        catalog: &ToolCatalog,
        last_result: Option<&ToolResult>,
    ) -> (r: Result<AgentDirective, AgentHostError>)
        ensures
            old(self).answers(*final(self), *session, *catalog, last_value(last_result), r),
    ;
}

/// A driver that replays a fixed list of directives.
pub struct ScriptedAgentDriver {
    actions: Vec<AgentDirective>,
}

impl ScriptedAgentDriver {
    /// The directives still to replay.
    pub closed spec fn script(&self) -> Seq<AgentDirective> {
        self.actions@
    }

    /// A driver that replays `actions` in order.
    pub fn new(actions: Vec<AgentDirective>) -> (d: Self)
        ensures
            d.script() == actions@,
    {
        ScriptedAgentDriver { actions }
    }
}

impl AgentLoopDriver for ScriptedAgentDriver {
    /// The next directive of the script, or a driver failure once it is exhausted.
    open spec fn answers(
        &self,
        after: Self,
        session: AgentSession,
        catalog: ToolCatalog,
        last: Option<ToolResult>,
        r: Result<AgentDirective, AgentHostError>,
    ) -> bool {
        &&& self.script().len() == 0 ==> (r matches Err(AgentHostError::Driver(m)) && m@
            == "script exhausted without completion"@ && after.script() == self.script())
        &&& self.script().len() > 0 ==> (r == Ok::<AgentDirective, AgentHostError>(self.script()[0])
            && after.script() == self.script().drop_first())
    }

    fn next_action(
        &mut self,
        session: &AgentSession,
        catalog: &ToolCatalog,
        last_result: Option<&ToolResult>,
    ) -> (r: Result<AgentDirective, AgentHostError>)
        ensures
            old(self).script().len() == 0 ==> (r matches Err(AgentHostError::Driver(m)) && m@
                == "script exhausted without completion"@ && final(self).script() == old(self).script()),
            old(self).script().len() > 0 ==> (r == Ok::<AgentDirective, AgentHostError>(old(self).script()[0])
                && final(self).script() == old(self).script().drop_first()),
    {
        if self.actions.len() == 0 {
            return Err(AgentHostError::Driver(string_of("script exhausted without completion")));
        }
        let d = self.actions.remove(0);
        Ok(d)
    }
}

/// Whether a result reports an applied transaction.
pub open spec fn applied(r: ResultView) -> bool {
    match r.transaction {
        Some(JsonModel::Object(ms)) => crate::json::member_get(ms, "status"@) == Some(JsonModel::String("applied"@)),
        _ => false,
    }
}

/// Whether a tool result carries a transaction whose status is `applied`.
pub fn transaction_was_applied(result: &ToolResult) -> (r: bool)
    ensures
        r == applied(result.view()),
{
    match &result.transaction {
        Some(t) => {
            proof {
                crate::json::lemma_model_parts(*t);
            }
            match t {
                JsonValue::Object(ms) => match crate::command::input::member(ms, "status") {
                    Some(v) => match v {
                        JsonValue::String(s) => crate::text::text_is(s.as_str(), "applied"),
                        _ => false,
                    },
                    None => false,
                },
                _ => false,
            }
        },
        None => false,
    }
}


/// `{"session_status": status}`.
pub open spec fn status_details(s: SessionStatus) -> JsonModel {
    JsonModel::Object(seq![("session_status"@, text_model(status_wire(s)))])
}

/// `{"actions_used": used, "max_actions": max}`.
pub open spec fn budget_details(used: u32, max: u32) -> JsonModel {
    JsonModel::Object(
        seq![
            ("actions_used"@, JsonModel::Number(NumberRepr::PosInt(used as u64))),
            ("max_actions"@, JsonModel::Number(NumberRepr::PosInt(max as u64))),
        ],
    )
}

/// `{"required_permissions": [..], "tool": tool}`.
pub open spec fn permission_details(tool: Seq<char>, required: Set<crate::permissions::Permission>) -> JsonModel {
    JsonModel::Object(seq![("required_permissions"@, permissions_model(required)), ("tool"@, text_model(tool))])
}

/// The summary a session gets when its budget runs out.
pub open spec fn budget_summary(max: u32) -> Seq<char> {
    "action budget exhausted at "@ + decimal(max as nat) + " tool actions"@
}

/// The session's working set as the host applies it: none when it is empty, otherwise
/// its identifiers once each, in ascending order.
pub open spec fn allowed_of(working_set: Seq<DocumentId>, a: Option<Seq<DocumentId>>) -> bool {
    &&& (working_set.len() == 0 <==> a is None)
    &&& (a matches Some(v) ==> ascending(id_texts(v)) && id_texts(v).to_set() == id_texts(working_set).to_set())
}

/// A working set as a sequence, if any.
pub open spec fn ws_view(o: Option<Vec<DocumentId>>) -> Option<Seq<DocumentId>> {
    match o {
        Some(v) => Some(v@),
        None => None,
    }
}

/// The identifiers of a working set, if any.
pub open spec fn allowed_texts(a: Option<Seq<DocumentId>>) -> Option<Seq<Seq<char>>> {
    match a {
        Some(v) => Some(id_texts(v)),
        None => None,
    }
}

/// The documents a session sees: those of its working set, when it has one.
pub open spec fn visible(documents: Seq<(Seq<char>, EnvelopeView)>, a: Option<Seq<DocumentId>>) -> Seq<(Seq<char>, EnvelopeView)> {
    match a {
        Some(v) => kept_entries(documents, id_texts(v)),
        None => documents,
    }
}

/// A query's plan as the access check reads it: a failure to plan becomes an invalid
/// input with the query error's message.
pub open spec fn plan_mapped(plan: Result<DocumentAccessPlan, QueryError>, mapped: Result<DocumentAccessPlan, CommandError>) -> bool {
    match plan {
        Ok(p) => mapped == Ok::<DocumentAccessPlan, CommandError>(p),
        Err(e) => mapped matches Err(CommandError::InvalidInput(m)) && m@ == query_error_text(e),
    }
}

/// What a permitted command call answers: a failed input preparation answers its
/// diagnostics; otherwise the prepared input's access plan is checked against the
/// working set and a refusal is answered; otherwise the command runs under the session's
/// identity and permissions, limited to its working set, and its outcome is answered.
/// Nothing changes but by that run.
pub open spec fn command_answer<H: CommandHandler>(
    ce0: CommandExecutor<H>,
    ce1: CommandExecutor<H>,
    before: Seq<(Seq<char>, EnvelopeView)>,
    after: Seq<(Seq<char>, EnvelopeView)>,
    actor: Seq<char>,
    permissions: Set<Permission>,
    call: ToolCall,
    a: Option<Seq<DocumentId>>,
    r: ResultView,
) -> bool {
    exists|req: CommandRequest, prep: Result<JsonValue, CommandError>|
        #![trigger prepared(ce0, req, prep)]
        req.command == call.tool && model(req.input) == model(call.input) && render(req.input) == render(call.input)
            && req.dry_run == call.dry_run && prepared(ce0, req, prep) && match prep {
            Err(e) => r == preparation_view(call.id@, call.tool.view(), e) && after == before && ce1 == ce0,
            Ok(n) => planned_answer(ce0, ce1, before, after, actor, permissions, call, a, n, r),
        }
}

/// What a command call with prepared input `n` answers (see `command_answer`).
pub open spec fn planned_answer<H: CommandHandler>(
    ce0: CommandExecutor<H>,
    ce1: CommandExecutor<H>,
    before: Seq<(Seq<char>, EnvelopeView)>,
    after: Seq<(Seq<char>, EnvelopeView)>,
    actor: Seq<char>,
    permissions: Set<Permission>,
    call: ToolCall,
    a: Option<Seq<DocumentId>>,
    n: JsonValue,
    r: ResultView,
) -> bool {
    let req = CommandRequest { command: call.tool, input: n, dry_run: call.dry_run };
    exists|plan: Result<DocumentAccessPlan, CommandError>|
        #[trigger] planned(ce0, req, plan) && match access_view(
            call.id@,
            call.tool.view(),
            ToolKind::Command,
            plan,
            allowed_texts(a),
        ) {
            Some(v) => r == v && after == before && ce1 == ce0,
            None => exists|ctx: CommandContext, res: Result<TransactionReport, CommandError>|
                #![trigger scoped_outcome(ce0, ce1, req, ctx, before, after, a, res)]
                ctx.actor@ == actor && ctx.permissions.view() == permissions
                    && scoped_outcome(ce0, ce1, req, ctx, before, after, a, res) && r == command_view(
                    call.id@,
                    call.tool.view(),
                    res,
                ),
        }
}

/// What a permitted query call answers: its access plan is checked against the working
/// set and a refusal is answered; otherwise the query runs with the session's
/// permissions over the documents the session sees, and its outcome is answered.
pub open spec fn query_answer<Q: QueryHandler>(
    qe: QueryExecutor<Q>,
    documents: Seq<(Seq<char>, EnvelopeView)>,
    permissions: Set<Permission>,
    call: ToolCall,
    a: Option<Seq<DocumentId>>,
    r: ResultView,
) -> bool {
    exists|plan: Result<DocumentAccessPlan, QueryError>, mapped: Result<DocumentAccessPlan, CommandError>|
        #![trigger query_planned(qe, call.tool.view(), model(call.input), plan), plan_mapped(plan, mapped)]
        query_planned(qe, call.tool.view(), model(call.input), plan) && plan_mapped(plan, mapped) && match access_view(
            call.id@,
            call.tool.view(),
            ToolKind::Query,
            mapped,
            allowed_texts(a),
        ) {
            Some(v) => r == v,
            None => exists|res: Result<JsonValue, QueryError>|
                #[trigger] query_ran(
                    qe,
                    call.tool.view(),
                    model(call.input),
                    permissions,
                    visible(documents, a),
                    res,
                ) && r == query_view(call.id@, call.tool.view(), res),
        }
}

/// What dispatching a call does: an unknown tool and a missing permission are refused
/// with nothing changed; a permitted command answers as `command_answer` says and a
/// permitted query as `query_answer` says, changing nothing. A call that does not succeed
/// leaves the documents unchanged, and a restricted session's call changes only documents
/// of its working set.
pub open spec fn dispatch_holds<H: CommandHandler, Q: QueryHandler>(
    tools: Seq<(Seq<char>, ToolView)>,
    ce0: CommandExecutor<H>,
    ce1: CommandExecutor<H>,
    qe: QueryExecutor<Q>,
    before: Seq<(Seq<char>, EnvelopeView)>,
    after: Seq<(Seq<char>, EnvelopeView)>,
    actor: Seq<char>,
    permissions: Set<Permission>,
    working_set: Seq<DocumentId>,
    call: ToolCall,
    a: Option<Seq<DocumentId>>,
    r: ResultView,
) -> bool {
    let cv = call.view();
    &&& r.call_id == cv.id
    &&& match key_index(tools, cv.tool) {
        None => r == error_view(
            cv.id,
            ToolResultStatus::Rejected,
            AGENT_TOOL_NOT_FOUND@,
            "tool not found: "@ + cv.tool,
            tool_details(cv.tool),
        ) && after == before && ce1 == ce0,
        Some(i) => if !tools[i].1.permissions.subset_of(permissions) {
            r == error_view(
                cv.id,
                ToolResultStatus::Rejected,
                AGENT_PERMISSION_DENIED@,
                "permission denied for tool: "@ + cv.tool,
                permission_details(cv.tool, tools[i].1.permissions),
            ) && after == before && ce1 == ce0
        } else {
            &&& (r.status != ToolResultStatus::Success ==> after == before)
            &&& (working_set.len() > 0 ==> forall|id: Seq<char>|
                #[trigger] changed(before, after, id) ==> id_texts(working_set).contains(id))
            &&& if tools[i].1.kind == ToolKind::Command {
                command_answer(ce0, ce1, before, after, actor, permissions, call, a, r)
            } else {
                query_answer(qe, before, permissions, call, a, r) && after == before && ce1 == ce0
            }
        },
    }
}

proof fn lemma_allows_listed(a: Seq<DocumentId>, id: Seq<char>)
    requires
        allows(a, id),
    ensures
        id_texts(a).contains(id),
{
    let i = choose|i: int| 0 <= i < a.len() && (#[trigger] a[i]).view() == id;
    assert(id_texts(a)[i] == id);
}

proof fn lemma_unchanged(s: Seq<(Seq<char>, EnvelopeView)>, id: Seq<char>)
    ensures
        !changed(s, s, id),
{
}

fn joined_text(before: &str, middle: &str) -> (m: String)
    ensures
        m@ == before@ + middle@,
{
    let mut m = string_of(before);
    push_str(&mut m, middle);
    m
}

fn record_action(session: &mut AgentSession, call: ToolCall, result: ToolResult)
    requires
        old(session).actions@.len() < u32::MAX,
    ensures
        records_view(final(session).actions@) == records_view(old(session).actions@).push(
            RecordView {
                sequence: (old(session).actions@.len() + 1) as u32,
                call: call.view(),
                result: result.view(),
            },
        ),
        final(session).id == old(session).id,
        final(session).objective == old(session).objective,
        final(session).permissions == old(session).permissions,
        final(session).working_set == old(session).working_set,
        final(session).budget == old(session).budget,
        final(session).actions_used == old(session).actions_used,
        final(session).status == old(session).status,
        final(session).final_summary == old(session).final_summary,
{
    let sequence = session.actions.len() as u32 + 1;
    let ghost before = session.actions@;
    let record = AgentActionRecord { sequence, call, result };
    let ghost rv = record.view();
    session.actions.push(record);
    assert(records_view(session.actions@) =~= records_view(before).push(rv));
}

/// What executing a call does (see `AgentHost::execute`): the call and its answer are
/// recorded; an ended session is refused; an exhausted budget ends the session; otherwise
/// the attempt is counted and dispatched (see `dispatch_holds`).
pub open spec fn executed<H: CommandHandler, Q: QueryHandler>(
    h0: AgentHost<H, Q>,
    h1: AgentHost<H, Q>,
    s0: AgentSession,
    s1: AgentSession,
    call: ToolCall,
    r: ResultView,
) -> bool {
    &&& r.call_id == call.id@
    &&& records_view(s1.actions@) == records_view(s0.actions@).push(
        RecordView {
            sequence: (s0.actions@.len() + 1) as u32,
            call: call.view(),
            result: r,
        },
    )
    &&& s1.id == s0.id
    &&& s1.permissions == s0.permissions
    &&& s1.working_set == s0.working_set
    &&& s1.budget == s0.budget
    &&& h1.tools() == h0.tools()
    &&& terminal(s0.status) ==> {
        &&& r == error_view(
            call.id@,
            ToolResultStatus::Rejected,
            AGENT_SESSION_NOT_ACTIVE@,
            "session is not active: "@ + status_debug(s0.status),
            status_details(s0.status),
        )
        &&& s1.status == s0.status
        &&& s1.actions_used == s0.actions_used
        &&& s1.final_summary == s0.final_summary
        &&& h1.documents() == h0.documents()
        &&& h1.transactions() == h0.transactions()
    }
    &&& !terminal(s0.status) && s0.actions_used >= s0.budget.max_actions ==> {
        &&& r == error_view(
            call.id@,
            ToolResultStatus::Rejected,
            AGENT_BUDGET_EXCEEDED@,
            "agent action budget exceeded"@,
            budget_details(s0.actions_used, s0.budget.max_actions),
        )
        &&& s1.status == SessionStatus::BudgetExceeded
        &&& s1.actions_used == s0.actions_used
        &&& s1.final_summary matches Some(t) && t@ == budget_summary(s0.budget.max_actions)
        &&& h1.documents() == h0.documents()
        &&& h1.transactions() == h0.transactions()
    }
    &&& !terminal(s0.status) && s0.actions_used < s0.budget.max_actions ==> {
        &&& s1.status == SessionStatus::Running
        &&& s1.actions_used == s0.actions_used + 1
        &&& s1.final_summary == s0.final_summary
        &&& exists|a: Option<Seq<DocumentId>>|
            #![trigger allowed_of(s0.working_set@, a)]
            allowed_of(s0.working_set@, a) && dispatch_holds(
                h0.tools(),
                h0.command_executor(),
                h1.command_executor(),
                h0.query_executor(),
                h0.documents(),
                h1.documents(),
                s0.id.view(),
                s0.permissions.view(),
                s0.working_set@,
                call,
                a,
                r,
            )
        &&& h0.transactions() <= h1.transactions() <= h0.transactions() + 1
    }
}

/// What one directive of a run does (see `AgentHost::step`), from host `h0`, running
/// session `s0` and last answer `l0` to `h1`, `s1` and `l1`, with `r` telling whether and
/// how the run ends.
pub open spec fn stepped<H: CommandHandler, Q: QueryHandler>(
    h0: AgentHost<H, Q>,
    h1: AgentHost<H, Q>,
    s0: AgentSession,
    s1: AgentSession,
    directive: AgentDirective,
    l0: Option<ToolResult>,
    l1: Option<ToolResult>,
    r: Option<Result<(), AgentHostError>>,
) -> bool {
    &&& match directive {
        AgentDirective::Complete { summary } => r == Some(Ok::<(), AgentHostError>(())) && s1.status
            == SessionStatus::Completed && s1.final_summary == Some(summary) && s1.actions == s0.actions
            && s1.actions_used == s0.actions_used && h1 == h0 && l1 == l0,
        AgentDirective::Stop { reason } => r == Some(Ok::<(), AgentHostError>(())) && s1.status == SessionStatus::Stopped
            && s1.final_summary == Some(reason) && s1.actions == s0.actions && s1.actions_used == s0.actions_used
            && h1 == h0 && l1 == l0,
        AgentDirective::Tool(call) => if h0.transactions() < u64::MAX && s0.actions@.len() < u32::MAX {
            &&& l1 matches Some(t) && executed(h0, h1, s0, s1, call, t.view())
            &&& if s0.actions_used < s0.budget.max_actions {
                r is None
            } else {
                r == Some(Err::<(), AgentHostError>(AgentHostError::BudgetExceeded))
            }
        } else {
            &&& r == Some(Err::<(), AgentHostError>(AgentHostError::BudgetExceeded))
            &&& s1.status == SessionStatus::BudgetExceeded
            &&& s1.actions == s0.actions
            &&& s1.actions_used == s0.actions_used
            &&& s1.final_summary == s0.final_summary
            &&& h1 == h0
            &&& l1 == l0
        },
    }
    &&& s1.id == s0.id
    &&& s1.permissions == s0.permissions
    &&& s1.working_set == s0.working_set
    &&& s1.budget == s0.budget
    &&& (r is None ==> s1.status == SessionStatus::Running && s0.actions_used < s0.budget.max_actions && s1.actions_used
        == s0.actions_used + 1)
    &&& (r matches Some(Ok(())) ==> (s1.status == SessionStatus::Completed || s1.status == SessionStatus::Stopped)
        && s1.final_summary is Some)
    &&& (r matches Some(Err(e)) ==> e is BudgetExceeded && s1.status == SessionStatus::BudgetExceeded)
}

/// The session once a run starts it.
pub open spec fn started(s: AgentSession) -> AgentSession {
    AgentSession { status: SessionStatus::Running, ..s }
}

/// The rounds of a run that went on: in round `i` the driver `ds[i]`, handed the session
/// `ss[i]`, the catalog of `hs[i]` and the last answer `ls[i]`, answered the directive
/// `xs[i]` and became `ds[i + 1]`, and the directive was stepped (see `stepped`) from
/// `hs[i]`, `ss[i]`, `ls[i]` to `hs[i + 1]`, `ss[i + 1]`, `ls[i + 1]` without ending the
/// run.
pub open spec fn rounds<H: CommandHandler, Q: QueryHandler, D: AgentLoopDriver>(
    hs: Seq<AgentHost<H, Q>>,
    ss: Seq<AgentSession>,
    ds: Seq<D>,
    ls: Seq<Option<ToolResult>>,
    xs: Seq<AgentDirective>,
) -> bool {
    &&& hs.len() == xs.len() + 1
    &&& ss.len() == xs.len() + 1
    &&& ds.len() == xs.len() + 1
    &&& ls.len() == xs.len() + 1
    &&& forall|i: int|
        0 <= i < xs.len() ==> #[trigger] ds[i].answers(
            ds[i + 1],
            ss[i],
            hs[i].catalog_spec(),
            ls[i],
            Ok::<AgentDirective, AgentHostError>(xs[i]),
        ) && stepped(hs[i], hs[i + 1], ss[i], ss[i + 1], xs[i], ls[i], ls[i + 1], None)
}

/// The session failed by a driver error: failed, with the error's message as summary,
/// and otherwise as it was.
pub open spec fn failed_with(s0: AgentSession, s1: AgentSession, e: AgentHostError) -> bool {
    &&& s1.status == SessionStatus::Failed
    &&& s1.final_summary matches Some(t) && t@ == host_error_text(e)
    &&& s1.id == s0.id
    &&& s1.permissions == s0.permissions
    &&& s1.working_set == s0.working_set
    &&& s1.budget == s0.budget
    &&& s1.actions == s0.actions
    &&& s1.actions_used == s0.actions_used
}

/// How a run ends after its rounds: the driver `d`, handed the session `s`, the catalog of
/// `h` and the last answer `l`, answered and became `d1`; a driver error fails the session
/// and ends the run with it, and a directive is stepped and its end is the run's.
pub open spec fn run_end<H: CommandHandler, Q: QueryHandler, D: AgentLoopDriver>(
    h: AgentHost<H, Q>,
    s: AgentSession,
    d: D,
    l: Option<ToolResult>,
    h1: AgentHost<H, Q>,
    s1: AgentSession,
    d1: D,
    r: Result<(), AgentHostError>,
) -> bool {
    exists|x: Result<AgentDirective, AgentHostError>|
        #[trigger] d.answers(d1, s, h.catalog_spec(), l, x) && match x {
            Err(e) => r == Err::<(), AgentHostError>(e) && h1 == h && failed_with(s, s1, e),
            Ok(dir) => exists|l1: Option<ToolResult>| #[trigger] stepped(h, h1, s, s1, dir, l, l1, Some(r)),
        }
}

/// Routes agent tool calls to commands and queries under a session's status, budget,
/// permissions and working set.
pub struct AgentHost<H, Q> {
    pub state: EngineState,
    command_executor: CommandExecutor<H>,
    query_executor: QueryExecutor<Q>,
    catalog: ToolCatalog,
}

impl<H: CommandHandler, Q: QueryHandler> AgentHost<H, Q> {
    /// The catalog's entries.
    pub closed spec fn tools(&self) -> Seq<(Seq<char>, ToolView)> {
        self.catalog.view()
    }

    /// The stored documents.
    pub closed spec fn documents(&self) -> Seq<(Seq<char>, EnvelopeView)> {
        self.state.documents.view()
    }

    /// The sequence number of the next command transaction.
    pub closed spec fn transactions(&self) -> u64 {
        self.command_executor.next_sequence()
    }

    /// The catalog.
    pub closed spec fn catalog_spec(&self) -> ToolCatalog {
        self.catalog
    }

    /// The command executor.
    pub closed spec fn command_executor(&self) -> CommandExecutor<H> {
        self.command_executor
    }

    /// The query executor.
    pub closed spec fn query_executor(&self) -> QueryExecutor<Q> {
        self.query_executor
    }

    /// A host over `state` with the given executors and catalog.
    pub fn new(
        state: EngineState,
        command_executor: CommandExecutor<H>,
        query_executor: QueryExecutor<Q>,
        catalog: ToolCatalog,
    ) -> (h: Self)
        ensures
            h.documents() == state.documents.view(),
            h.tools() == catalog.view(),
            h.transactions() == command_executor.next_sequence(),
            h.command_executor() == command_executor,
            h.query_executor() == query_executor,
    {
        AgentHost { state, command_executor, query_executor, catalog }
    }

    /// The tool catalog.
    pub fn catalog(&self) -> (c: &ToolCatalog)
        ensures
            c.view() == self.tools(),
    {
        &self.catalog
    }

    /// Prepares, plans and runs a permitted command call (see `command_answer`).
    #[verifier::rlimit(60)]
    fn execute_command(&mut self, session: &AgentSession, call: &ToolCall, allowed: &Option<Vec<DocumentId>>) -> (r: ToolResult)
        requires
            old(self).transactions() < u64::MAX,
        ensures
            command_answer(
                old(self).command_executor(),
                final(self).command_executor(),
                old(self).state.documents.view(),
                final(self).state.documents.view(),
                session.id.view(),
                session.permissions.view(),
                *call,
                ws_view(*allowed),
                r.view(),
            ),
            r.view().call_id == call.id@,
            r.view().status != ToolResultStatus::Success ==> final(self).state.documents.view()
                == old(self).state.documents.view(),
            *allowed matches Some(v) ==> forall|id: Seq<char>|
                #[trigger] changed(old(self).state.documents.view(), final(self).state.documents.view(), id)
                    ==> allows(v@, id),
            final(self).tools() == old(self).tools(),
            final(self).query_executor() == old(self).query_executor(),
            old(self).transactions() <= final(self).transactions() <= old(self).transactions() + 1,
    {
        let ghost before = self.state.documents.view();
        let ghost ce0 = self.command_executor;
        let ghost a = ws_view(*allowed);
        let request = CommandRequest { command: call.tool.clone(), input: crate::json::json_clone(&call.input), dry_run: call.dry_run };
        let prep = self.command_executor.prepare_input(&request);
        let ghost gprep = prep;
        assert(prepared(ce0, request, gprep));
        let normalized = match prep {
            Ok(n) => n,
            Err(e) => {
                return preparation_outcome(call, e);
            },
        };
        let req = CommandRequest { command: call.tool.clone(), input: normalized, dry_run: call.dry_run };
        let ghost greq = req;
        assert(greq == CommandRequest { command: call.tool, input: gprep->Ok_0, dry_run: call.dry_run });
        let plan = self.command_executor.document_access(&req);
        let ghost gplan = plan;
        assert(planned(ce0, greq, gplan));
        let allowed_ref: Option<&Vec<DocumentId>> = match allowed {
            Some(v) => Some(v),
            None => None,
        };
        match access_outcome(call, ToolKind::Command, plan, allowed_ref) {
            Some(r) => {
                return r;
            },
            None => {},
        }
        let context = CommandContext { actor: string_of(session.id.as_str()), permissions: session.permissions.clone() };
        let ghost gctx = context;
        let dry_run = call.dry_run;
        let result = self.command_executor.execute_scoped(req, &context, &mut self.state, allowed_ref);
        let ghost gres = result;
        assert(scoped_outcome(ce0, self.command_executor, greq, gctx, before, self.state.documents.view(), a, gres));
        proof {
            let after = self.state.documents.view();
            match ws_view(*allowed) {
                Some(v) => {
                    assert forall|id: Seq<char>| #[trigger] changed(before, after, id) implies allows(v, id) by {
                        match gres {
                            Ok(report) => {
                                if dry_run {
                                    lemma_unchanged(before, id);
                                } else {
                                    let ds = report.view().document_diffs;
                                    assert(crate::command::diff::diff_ids(ds).contains(id));
                                    let k = choose|k: int| 0 <= k < ds.len() && crate::command::diff::diff_ids(ds)[k] == id;
                                    assert(ds[k].document_id == id);
                                }
                            },
                            Err(_) => {
                                lemma_unchanged(before, id);
                            },
                        }
                    }
                },
                None => {},
            }
        }
        command_outcome(call, result)
    }

    /// Plans and runs a permitted query call over the documents the session sees (see
    /// `query_answer`).
    fn execute_query(&self, session: &AgentSession, call: &ToolCall, allowed: &Option<Vec<DocumentId>>) -> (r: ToolResult)
        ensures
            query_answer(
                self.query_executor(),
                self.state.documents.view(),
                session.permissions.view(),
                *call,
                ws_view(*allowed),
                r.view(),
            ),
            r.view().call_id == call.id@,
    {
        let ghost a = ws_view(*allowed);
        let request = QueryRequest { query: call.tool.clone(), input: crate::json::json_clone(&call.input) };
        let plan = self.query_executor.document_access(&request);
        let ghost gplan = plan;
        let mapped = match plan {
            Ok(p) => Ok(p),
            Err(e) => Err(CommandError::InvalidInput(e.message())),
        };
        let ghost gmapped = mapped;
        assert(query_planned(self.query_executor, call.tool.view(), model(call.input), gplan));
        assert(plan_mapped(gplan, gmapped));
        let allowed_ref: Option<&Vec<DocumentId>> = match allowed {
            Some(v) => Some(v),
            None => None,
        };
        match access_outcome(call, ToolKind::Query, mapped, allowed_ref) {
            Some(r) => {
                return r;
            },
            None => {},
        }
        let context = QueryContext { actor: string_of(session.id.as_str()), permissions: session.permissions.clone() };
        let output = match allowed {
            Some(v) => {
                let seen = self.state.documents.restricted_to(v);
                self.query_executor.execute(request, &context, &seen)
            },
            None => self.query_executor.execute(request, &context, &self.state.documents),
        };
        let ghost gout = output;
        assert(query_ran(
            self.query_executor,
            call.tool.view(),
            model(call.input),
            session.permissions.view(),
            visible(self.state.documents.view(), a),
            gout,
        ));
        query_outcome(call, output)
    }

    /// Routes one call past the catalog and permission checks (see `dispatch_holds`).
    #[verifier::rlimit(60)]
    fn dispatch(&mut self, session: &AgentSession, call: &ToolCall) -> (r: ToolResult)
        requires
            old(self).transactions() < u64::MAX,
        ensures
            exists|a: Option<Seq<DocumentId>>|
                #![trigger allowed_of(session.working_set@, a)]
                allowed_of(session.working_set@, a) && dispatch_holds(
                    old(self).tools(),
                    old(self).command_executor(),
                    final(self).command_executor(),
                    old(self).query_executor(),
                    old(self).state.documents.view(),
                    final(self).state.documents.view(),
                    session.id.view(),
                    session.permissions.view(),
                    session.working_set@,
                    *call,
                    a,
                    r.view(),
                ),
            final(self).tools() == old(self).tools(),
            final(self).query_executor() == old(self).query_executor(),
            old(self).transactions() <= final(self).transactions() <= old(self).transactions() + 1,
    {
        let ghost before = self.state.documents.view();
        let ghost tools = self.catalog.view();
        let allowed = session.allowed_documents();
        let ghost a = ws_view(allowed);
        assert(allowed_of(session.working_set@, a));
        let (kind, permitted) = match self.catalog.get(&call.tool) {
            Some(d) => (d.kind, session.permissions.contains_all(&d.required_permissions)),
            None => {
                let m = joined_text("tool not found: ", call.tool.as_str());
                return error_result(call, ToolResultStatus::Rejected, AGENT_TOOL_NOT_FOUND, m, tool_details_json(call));
            },
        };
        if !permitted {
            let m = joined_text("permission denied for tool: ", call.tool.as_str());
            let required = match self.catalog.get(&call.tool) {
                Some(d) => d.required_permissions.to_json(),
                None => JsonValue::Null,
            };
            let mut ms: Vec<(String, JsonValue)> = Vec::new();
            ms.push(entry("required_permissions", required));
            ms.push(entry("tool", json_string(call.tool.as_str())));
            let ghost i = key_index(tools, call.tool.view())->Some_0;
            let details = object_of(ms);
            assert(members_model(ms@) =~= permission_details(call.tool.view(), tools[i].1.permissions)->Object_0);
            return error_result(call, ToolResultStatus::Rejected, AGENT_PERMISSION_DENIED, m, details);
        }
        if kind == ToolKind::Command {
            let r = self.execute_command(session, call, &allowed);
            proof {
                let after = self.state.documents.view();
                if session.working_set@.len() > 0 {
                    let v = a->Some_0;
                    assert forall|id: Seq<char>| #[trigger] changed(before, after, id) implies id_texts(session.working_set@).contains(id) by {
                        lemma_allows_listed(v, id);
                        assert(id_texts(v).to_set().contains(id));
                    }
                }
            }
            r
        } else {
            let r = self.execute_query(session, call, &allowed);
            proof {
                assert forall|id: Seq<char>| #[trigger] changed(before, before, id) implies id_texts(session.working_set@).contains(id) by {
                    lemma_unchanged(before, id);
                }
            }
            r
        }
    }

    /// Runs one tool call for `session`, the only public way to run tools: an ended
    /// session and an exhausted budget are refused, otherwise the attempt is counted and
    /// dispatched (see `dispatch_holds`); every call, refused or not, is recorded.
    #[verifier::rlimit(60)]
    pub fn execute(&mut self, session: &mut AgentSession, call: ToolCall) -> (r: ToolResult)
        requires
            old(self).transactions() < u64::MAX,
            old(session).actions@.len() < u32::MAX,
        ensures
            executed(*old(self), *final(self), *old(session), *final(session), call, r.view()),
    {
        if session.is_terminal() {
            let m = joined_text("session is not active: ", status_debug_text(session.status));
            let mut ms: Vec<(String, JsonValue)> = Vec::new();
            ms.push(entry("session_status", json_string(status_wire_text(session.status))));
            let details = object_of(ms);
            assert(members_model(ms@) =~= status_details(session.status)->Object_0);
            let result = error_result(&call, ToolResultStatus::Rejected, AGENT_SESSION_NOT_ACTIVE, m, details);
            let ghost rv = result.view();
            record_action(session, call, result.clone());
            return result;
        }
        if session.status == SessionStatus::Ready {
            session.status = SessionStatus::Running;
        }
        if session.actions_used >= session.budget.max_actions {
            session.status = SessionStatus::BudgetExceeded;
            let mut summary = string_of("action budget exhausted at ");
            push_decimal(&mut summary, session.budget.max_actions as u64);
            push_str(&mut summary, " tool actions");
            session.final_summary = Some(summary);
            let mut ms: Vec<(String, JsonValue)> = Vec::new();
            ms.push(entry("actions_used", json_u64(session.actions_used as u64)));
            ms.push(entry("max_actions", json_u64(session.budget.max_actions as u64)));
            let details = object_of(ms);
            assert(members_model(ms@) =~= budget_details(session.actions_used, session.budget.max_actions)->Object_0);
            let result = error_result(
                &call,
                ToolResultStatus::Rejected,
                AGENT_BUDGET_EXCEEDED,
                string_of("agent action budget exceeded"),
                details,
            );
            record_action(session, call, result.clone());
            return result;
        }
        session.actions_used = session.actions_used + 1;
        let result = self.dispatch(&*session, &call);
        record_action(session, call, result.clone());
        result
    }

    /// Dispatches one call for `session` outside any budget or record (see
    /// `dispatch_holds`), as a workbench that serves an external agent does; once the
    /// transaction counter is at its limit every call is refused as an exhausted budget,
    /// with nothing changed.
    pub fn execute_call(&mut self, session: &AgentSession, call: ToolCall) -> (r: Result<ToolResult, AgentHostError>)
        ensures
            old(self).transactions() < u64::MAX ==> (r matches Ok(t) && exists|a: Option<Seq<DocumentId>>|
                #![trigger allowed_of(session.working_set@, a)]
                allowed_of(session.working_set@, a) && dispatch_holds(
                    old(self).tools(),
                    old(self).command_executor(),
                    final(self).command_executor(),
                    old(self).query_executor(),
                    old(self).documents(),
                    final(self).documents(),
                    session.id.view(),
                    session.permissions.view(),
                    session.working_set@,
                    call,
                    a,
                    t.view(),
                )),
            old(self).transactions() == u64::MAX ==> (r matches Err(e) && e is BudgetExceeded && *final(self)
                == *old(self)),
            final(self).tools() == old(self).tools(),
    {
        if self.command_executor.sequence() == u64::MAX {
            return Err(AgentHostError::BudgetExceeded);
        }
        Ok(self.dispatch(session, &call))
    }

    /// One directive of a run (see `run`) on a running session: `Complete` and `Stop`
    /// end the run successfully with their text as the summary; a tool call is executed
    /// (see `executed`) and its answer kept as the last result, and ends the run when the
    /// budget was exhausted; a call that the host can no longer number (its transaction
    /// counter or the session's action record at their limit) ends the run as an exhausted
    /// budget, with nothing run or recorded.
    #[verifier::rlimit(40)]
    pub fn step(&mut self, session: &mut AgentSession, directive: AgentDirective, last: &mut Option<ToolResult>) -> (r:
        Option<Result<(), AgentHostError>>)
        requires
            old(session).status == SessionStatus::Running,
        ensures
            stepped(*old(self), *final(self), *old(session), *final(session), directive, *old(last), *final(last), r),
    {
        match directive {
            AgentDirective::Tool(call) => {
                if self.command_executor.sequence() == u64::MAX || session.actions.len() >= 4294967295 {
                    session.status = SessionStatus::BudgetExceeded;
                    return Some(Err(AgentHostError::BudgetExceeded));
                }
                let result = self.execute(session, call);
                *last = Some(result);
                match session.status {
                    SessionStatus::BudgetExceeded => Some(Err(AgentHostError::BudgetExceeded)),
                    _ => None,
                }
            },
            AgentDirective::Complete { summary } => {
                session.status = SessionStatus::Completed;
                session.final_summary = Some(summary);
                Some(Ok(()))
            },
            AgentDirective::Stop { reason } => {
                session.status = SessionStatus::Stopped;
                session.final_summary = Some(reason);
                Some(Ok(()))
            },
        }
    }

    /// Runs `driver` on `session` until it completes, stops or fails: an ended session
    /// is refused; otherwise the session runs, and in each round the driver is handed the
    /// session, the catalog and the last tool answer, and its directive is taken as `step`
    /// says (see `rounds` and `run_end`); a driver failure marks the session failed with
    /// its message.
    pub fn run<D: AgentLoopDriver>(&mut self, driver: &mut D, session: &mut AgentSession) -> (r: Result<(), AgentHostError>)
        ensures
            terminal(old(session).status) ==> (r matches Err(AgentHostError::SessionNotActive(s)) && s
                == old(session).status && *final(session) == *old(session) && *final(self) == *old(self)),
            !terminal(old(session).status) ==> exists|
                hs: Seq<AgentHost<H, Q>>,
                ss: Seq<AgentSession>,
                ds: Seq<D>,
                ls: Seq<Option<ToolResult>>,
                xs: Seq<AgentDirective>,
            |
                #![trigger rounds(hs, ss, ds, ls, xs)]
                rounds(hs, ss, ds, ls, xs) && hs[0] == *old(self) && ss[0] == started(*old(session)) && ds[0]
                    == *old(driver) && ls[0] is None && run_end(
                    hs.last(),
                    ss.last(),
                    ds.last(),
                    ls.last(),
                    *final(self),
                    *final(session),
                    *final(driver),
                    r,
                ),
            !terminal(old(session).status) ==> match r {
                Ok(()) => (final(session).status == SessionStatus::Completed || final(session).status
                    == SessionStatus::Stopped) && final(session).final_summary is Some,
                Err(e) => (e is BudgetExceeded && final(session).status == SessionStatus::BudgetExceeded) || (
                final(session).status == SessionStatus::Failed && (final(session).final_summary matches Some(t) && t@
                    == host_error_text(e))),
            },
    {
        if session.is_terminal() {
            return Err(AgentHostError::SessionNotActive(session.status));
        }
        session.status = SessionStatus::Running;
        let mut last_result: Option<ToolResult> = None;
        let ghost mut hs: Seq<AgentHost<H, Q>> = seq![*self];
        let ghost mut ss: Seq<AgentSession> = seq![*session];
        let ghost mut ds: Seq<D> = seq![*driver];
        let ghost mut ls: Seq<Option<ToolResult>> = seq![last_result];
        let ghost mut xs: Seq<AgentDirective> = Seq::empty();
        assert(*session == started(*old(session)));
        loop
            invariant
                !terminal(old(session).status),
                session.status == SessionStatus::Running,
                rounds(hs, ss, ds, ls, xs),
                hs[0] == *old(self),
                ss[0] == started(*old(session)),
                ds[0] == *old(driver),
                ls[0] is None,
                hs.last() == *self,
                ss.last() == *session,
                ds.last() == *driver,
                ls.last() == last_result,
            decreases (if session.actions_used <= session.budget.max_actions {
                session.budget.max_actions - session.actions_used
            } else {
                0
            }),
        {
            let ghost d0 = *driver;
            let ghost s0 = *session;
            let ghost h0 = *self;
            let ghost l0 = last_result;
            let last_ref: Option<&ToolResult> = match &last_result {
                Some(x) => Some(x),
                None => None,
            };
            assert(last_value(last_ref) == l0);
            let answer = driver.next_action(&*session, &self.catalog, last_ref);
            let ghost gx = answer;
            assert(d0.answers(*driver, s0, h0.catalog_spec(), l0, gx));
            match answer {
                Err(error) => {
                    session.status = SessionStatus::Failed;
                    session.final_summary = Some(error.message());
                    assert(failed_with(s0, *session, error));
                    assert(run_end(h0, s0, d0, l0, *self, *session, *driver, Err::<(), AgentHostError>(error)));
                    return Err(error);
                },
                Ok(directive) => {
                    let ghost gd = directive;
                    let out = self.step(session, directive, &mut last_result);
                    match out {
                        Some(o) => {
                            assert(stepped(h0, *self, s0, *session, gd, l0, last_result, Some(o)));
                            assert(run_end(h0, s0, d0, l0, *self, *session, *driver, o));
                            return o;
                        },
                        None => {
                            proof {
                                let hs1 = hs.push(*self);
                                let ss1 = ss.push(*session);
                                let ds1 = ds.push(*driver);
                                let ls1 = ls.push(last_result);
                                let xs1 = xs.push(gd);
                                assert forall|i: int| 0 <= i < xs1.len() implies #[trigger] ds1[i].answers(
                                    ds1[i + 1],
                                    ss1[i],
                                    hs1[i].catalog_spec(),
                                    ls1[i],
                                    Ok::<AgentDirective, AgentHostError>(xs1[i]),
                                ) && stepped(hs1[i], hs1[i + 1], ss1[i], ss1[i + 1], xs1[i], ls1[i], ls1[i + 1], None) by {
                                    if i < xs.len() {
                                        assert(ds[i].answers(
                                            ds[i + 1],
                                            ss[i],
                                            hs[i].catalog_spec(),
                                            ls[i],
                                            Ok::<AgentDirective, AgentHostError>(xs[i]),
                                        ));
                                    }
                                }
                                hs = hs1;
                                ss = ss1;
                                ds = ds1;
                                ls = ls1;
                                xs = xs1;
                            }
                        },
                    }
                },
            }
        }
    }
}

} // verus!
