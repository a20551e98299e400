use crate::access::{id_texts, DocumentAccessPlan};
use crate::catalog::ToolKind;
use crate::command::report::report_model;
use crate::command::{CommandError, TransactionReport};
use crate::diagnostics::Diagnostic;
use crate::diagnostics_json::diagnostic_model;
use crate::ids::DocumentId;
use crate::json::{items_model, json_string, members_model, model, JsonModel, JsonValue};
use crate::messages::{command_error_text, query_error_text};
use crate::protocol::{ResultView, ToolCall, ToolResult, ToolResultStatus};
use crate::query::QueryError;
use crate::stage_json::{array_of, entry, object_of, text_model};
use crate::text::{push_str, string_of};
use vstd::prelude::*;

verus! {

/// A tool that is not in the catalog.
pub const AGENT_TOOL_NOT_FOUND: &'static str = "AGENT_TOOL_NOT_FOUND";
/// A session without a permission the tool needs.
pub const AGENT_PERMISSION_DENIED: &'static str = "AGENT_PERMISSION_DENIED";
/// A tool reaching outside the session's working set.
pub const AGENT_WORKING_SET_DENIED: &'static str = "AGENT_WORKING_SET_DENIED";
/// A tool whose document access cannot be planned.
pub const AGENT_ACCESS_PLAN_INVALID: &'static str = "AGENT_ACCESS_PLAN_INVALID";
/// A tool that failed while running.
pub const AGENT_TOOL_FAILED: &'static str = "AGENT_TOOL_FAILED";

/// `{"error": {"code": .., "details": .., "message": ..}}`.
pub open spec fn error_model(code: Seq<char>, message: Seq<char>, details: JsonModel) -> JsonModel {
    JsonModel::Object(
        seq![
            ("error"@, JsonModel::Object(
                seq![("code"@, text_model(code)), ("details"@, details), ("message"@, text_model(message))],
            )),
        ],
    )
}

/// `{"error": {"code": "COMMAND_VALIDATION_FAILED", "message": ..}}`.
pub open spec fn validation_model(message: Seq<char>) -> JsonModel {
    JsonModel::Object(
        seq![
            ("error"@, JsonModel::Object(
                seq![("code"@, text_model("COMMAND_VALIDATION_FAILED"@)), ("message"@, text_model(message))],
            )),
        ],
    )
}

/// `{"tool": tool}`.
pub open spec fn tool_details(tool: Seq<char>) -> JsonModel {
    JsonModel::Object(seq![("tool"@, text_model(tool))])
}

/// A refused or failed call: the error output, no diagnostics, no transaction.
pub open spec fn error_view(
    call_id: Seq<char>,
    status: ToolResultStatus,
    code: Seq<char>,
    message: Seq<char>,
    details: JsonModel,
) -> ResultView {
    ResultView {
        call_id,
        status,
        output: error_model(code, message, details),
        diagnostics: Seq::empty(),
        transaction: None,
    }
}

/// The diagnostics of a list as JSON values.
pub open spec fn diagnostic_models(ds: Seq<Diagnostic>) -> Seq<JsonModel> {
    Seq::new(ds.len(), |i: int| diagnostic_model(ds[i].view()))
}

/// Builds a refused or failed result (see `error_view`).
pub fn error_result(call: &ToolCall, status: ToolResultStatus, code: &str, message: String, details: JsonValue) -> (r: ToolResult)
    ensures
        r.view() == error_view(call.id@, status, code@, message@, model(details)),
{
    let mut inner: Vec<(String, JsonValue)> = Vec::new();
    inner.push(entry("code", json_string(code)));
    inner.push(entry("details", details));
    inner.push(entry("message", JsonValue::String(message)));
    let ghost im = members_model(inner@);
    let e = object_of(inner);
    let mut outer: Vec<(String, JsonValue)> = Vec::new();
    outer.push(entry("error", e));
    let output = object_of(outer);
    assert(im =~= seq![("code"@, text_model(code@)), ("details"@, model(details)), ("message"@, text_model(message@))]);
    assert(members_model(outer@) =~= error_model(code@, message@, model(details))->Object_0);
    let diagnostics: Vec<JsonValue> = Vec::new();
    assert(items_model(diagnostics@) =~= Seq::<JsonModel>::empty());
    ToolResult { call_id: call.id.clone(), status, output, diagnostics, transaction: None }
}

/// `{"tool": tool}` for the call's tool.
pub fn tool_details_json(call: &ToolCall) -> (v: JsonValue)
    ensures
        model(v) == tool_details(call.tool.view()),
{
    let mut ms: Vec<(String, JsonValue)> = Vec::new();
    ms.push(entry("tool", json_string(call.tool.as_str())));
    let v = object_of(ms);
    assert(members_model(ms@) =~= tool_details(call.tool.view())->Object_0);
    v
}

/// The diagnostics as JSON values.
pub fn diagnostic_values(ds: &Vec<Diagnostic>) -> (out: Vec<JsonValue>)
    ensures
        items_model(out@) == diagnostic_models(ds@),
{
    let mut out: Vec<JsonValue> = Vec::new();
    let mut i: usize = 0;
    while i < ds.len()
        invariant
            i <= ds@.len(),
            out@.len() == i,
            forall|j: int| 0 <= j < i ==> model(#[trigger] out@[j]) == diagnostic_model(ds@[j].view()),
        decreases ds@.len() - i,
    {
        out.push(ds[i].to_json());
        i = i + 1;
    }
    assert(items_model(out@) =~= diagnostic_models(ds@));
    out
}

/// A call refused because its input does not validate: the validation output with
/// `message`, and the diagnostics.
pub fn validation_result(call: &ToolCall, message: &str, ds: &Vec<Diagnostic>) -> (r: ToolResult)
    ensures
        r.view() == (ResultView {
            call_id: call.id@,
            status: ToolResultStatus::Rejected,
            output: validation_model(message@),
            diagnostics: diagnostic_models(ds@),
            transaction: None,
        }),
{
    let mut inner: Vec<(String, JsonValue)> = Vec::new();
    inner.push(entry("code", json_string("COMMAND_VALIDATION_FAILED")));
    inner.push(entry("message", json_string(message)));
    let ghost im = members_model(inner@);
    let e = object_of(inner);
    let mut outer: Vec<(String, JsonValue)> = Vec::new();
    outer.push(entry("error", e));
    let output = object_of(outer);
    assert(im =~= seq![("code"@, text_model("COMMAND_VALIDATION_FAILED"@)), ("message"@, text_model(message@))]);
    assert(members_model(outer@) =~= validation_model(message@)->Object_0);
    ToolResult {
        call_id: call.id.clone(),
        status: ToolResultStatus::Rejected,
        output,
        diagnostics: diagnostic_values(ds),
        transaction: None,
    }
}

/// What a call whose command input failed preparation answers: the input's diagnostics
/// when it did not validate, otherwise a failure with the error's message.
pub open spec fn preparation_view(call_id: Seq<char>, tool: Seq<char>, e: CommandError) -> ResultView {
    match e {
        CommandError::ValidationFailed(bag) => ResultView {
            call_id,
            status: ToolResultStatus::Rejected,
            output: validation_model("command input structural validation failed"@),
            diagnostics: diagnostic_models(bag.diagnostics@),
            transaction: None,
        },
        _ => error_view(call_id, ToolResultStatus::Failed, AGENT_TOOL_FAILED@, command_error_text(e), tool_details(tool)),
    }
}

/// The answer to a call whose command input failed preparation (see `preparation_view`).
pub fn preparation_outcome(call: &ToolCall, e: CommandError) -> (r: ToolResult)
    ensures
        r.view() == preparation_view(call.id@, call.tool.view(), e),
{
    match e {
        CommandError::ValidationFailed(bag) => validation_result(call, "command input structural validation failed", &bag.diagnostics),
        _ => error_result(call, ToolResultStatus::Failed, AGENT_TOOL_FAILED, e.message(), tool_details_json(call)),
    }
}

/// `{"denied_documents": [..]}`.
pub open spec fn denied_details(ids: Seq<Seq<char>>) -> JsonModel {
    JsonModel::Object(seq![("denied_documents"@, JsonModel::Array(Seq::new(ids.len(), |i: int| text_model(ids[i]))))])
}

/// What a command run answers: its output, diagnostics and report when it ran; its
/// diagnostics when its input did not validate; a refusal for missing permissions or for
/// changes outside the working set; otherwise a failure with the error's message.
pub open spec fn command_view(call_id: Seq<char>, tool: Seq<char>, result: Result<TransactionReport, CommandError>) -> ResultView {
    match result {
        Ok(report) => ResultView {
            call_id,
            status: ToolResultStatus::Success,
            output: model(report.output),
            diagnostics: diagnostic_models(report.diagnostics.diagnostics@),
            transaction: Some(report_model(report.view())),
        },
        Err(CommandError::ValidationFailed(bag)) => ResultView {
            call_id,
            status: ToolResultStatus::Rejected,
            output: validation_model("command validation failed"@),
            diagnostics: diagnostic_models(bag.diagnostics@),
            transaction: None,
        },
        Err(CommandError::PermissionDenied(_)) => error_view(
            call_id,
            ToolResultStatus::Rejected,
            AGENT_PERMISSION_DENIED@,
            "command permission denied"@,
            tool_details(tool),
        ),
        Err(CommandError::WorkingSetDenied(ids)) => error_view(
            call_id,
            ToolResultStatus::Rejected,
            AGENT_WORKING_SET_DENIED@,
            "command modified documents outside the working set"@,
            denied_details(id_texts(ids@)),
        ),
        Err(e) => error_view(call_id, ToolResultStatus::Failed, AGENT_TOOL_FAILED@, command_error_text(e), tool_details(tool)),
    }
}

/// A list of identifiers as a JSON array of strings.
pub fn ids_json(ids: &Vec<DocumentId>) -> (v: JsonValue)
    ensures
        model(v) == JsonModel::Array(Seq::new(ids@.len(), |i: int| text_model(id_texts(ids@)[i]))),
{
    let mut out: Vec<JsonValue> = Vec::new();
    let mut i: usize = 0;
    while i < ids.len()
        invariant
            i <= ids@.len(),
            out@.len() == i,
            forall|j: int| 0 <= j < i ==> model(#[trigger] out@[j]) == text_model(ids@[j].view()),
        decreases ids@.len() - i,
    {
        out.push(json_string(ids[i].as_str()));
        i = i + 1;
    }
    assert(items_model(out@) =~= Seq::new(ids@.len(), |i: int| text_model(id_texts(ids@)[i])));
    array_of(out)
}

/// The answer to a command run (see `command_view`).
pub fn command_outcome(call: &ToolCall, result: Result<TransactionReport, CommandError>) -> (r: ToolResult)
    ensures
        r.view() == command_view(call.id@, call.tool.view(), result),
{
    match result {
        Ok(report) => {
            let transaction = report.to_json();
            let diagnostics = diagnostic_values(&report.diagnostics.diagnostics);
            ToolResult {
                call_id: call.id.clone(),
                status: ToolResultStatus::Success,
                output: report.output,
                diagnostics,
                transaction: Some(transaction),
            }
        },
        Err(CommandError::ValidationFailed(bag)) => validation_result(call, "command validation failed", &bag.diagnostics),
        Err(CommandError::PermissionDenied(_)) => error_result(
            call,
            ToolResultStatus::Rejected,
            AGENT_PERMISSION_DENIED,
            string_of("command permission denied"),
            tool_details_json(call),
        ),
        Err(CommandError::WorkingSetDenied(ids)) => {
            let mut ms: Vec<(String, JsonValue)> = Vec::new();
            ms.push(entry("denied_documents", ids_json(&ids)));
            let details = object_of(ms);
            assert(members_model(ms@) =~= denied_details(id_texts(ids@))->Object_0);
            error_result(
                call,
                ToolResultStatus::Rejected,
                AGENT_WORKING_SET_DENIED,
                string_of("command modified documents outside the working set"),
                details,
            )
        },
        Err(e) => error_result(call, ToolResultStatus::Failed, AGENT_TOOL_FAILED, e.message(), tool_details_json(call)),
    }
}

/// What a query run answers: its output, or a failure with the error's message.
pub open spec fn query_view(call_id: Seq<char>, tool: Seq<char>, result: Result<JsonValue, QueryError>) -> ResultView {
    match result {
        Ok(output) => ResultView {
            call_id,
            status: ToolResultStatus::Success,
            output: model(output),
            diagnostics: Seq::empty(),
            transaction: None,
        },
        Err(e) => error_view(call_id, ToolResultStatus::Failed, AGENT_TOOL_FAILED@, query_error_text(e), tool_details(tool)),
    }
}

/// The answer to a query run (see `query_view`).
pub fn query_outcome(call: &ToolCall, result: Result<JsonValue, QueryError>) -> (r: ToolResult)
    ensures
        r.view() == query_view(call.id@, call.tool.view(), result),
{
    match result {
        Ok(output) => {
            let diagnostics: Vec<JsonValue> = Vec::new();
            assert(items_model(diagnostics@) =~= Seq::<JsonModel>::empty());
            ToolResult { call_id: call.id.clone(), status: ToolResultStatus::Success, output, diagnostics, transaction: None }
        },
        Err(e) => error_result(call, ToolResultStatus::Failed, AGENT_TOOL_FAILED, e.message(), tool_details_json(call)),
    }
}

/// The required documents that `allowed` does not hold, in order.
pub open spec fn denied_ids(required: Seq<Seq<char>>, allowed: Seq<Seq<char>>) -> Seq<Seq<char>>
    decreases required.len(),
{
    if required.len() == 0 {
        Seq::empty()
    } else {
        denied_ids(required.drop_last(), allowed) + if allowed.contains(required.last()) {
            Seq::empty()
        } else {
            seq![required.last()]
        }
    }
}

/// `{"denied_documents": .., "project_scan": .., "working_set": ..}`.
pub open spec fn working_set_details(denied: Seq<Seq<char>>, scan: bool, allowed: Seq<Seq<char>>) -> JsonModel {
    JsonModel::Object(
        seq![
            ("denied_documents"@, JsonModel::Array(Seq::new(denied.len(), |i: int| text_model(denied[i])))),
            ("project_scan"@, JsonModel::Bool(scan)),
            ("working_set"@, JsonModel::Array(Seq::new(allowed.len(), |i: int| text_model(allowed[i])))),
        ],
    )
}

/// Whether a planned access is refused, and how: an unplannable access, or (for a
/// restricted session) a required document outside the working set or a command that
/// scans the project.
pub open spec fn access_view(
    call_id: Seq<char>,
    tool: Seq<char>,
    kind: ToolKind,
    plan: Result<DocumentAccessPlan, CommandError>,
    allowed: Option<Seq<Seq<char>>>,
) -> Option<ResultView> {
    match plan {
        Err(e) => Some(error_view(call_id, ToolResultStatus::Rejected, AGENT_ACCESS_PLAN_INVALID@, command_error_text(e), tool_details(tool))),
        Ok(p) => match allowed {
            None => None,
            Some(a) => {
                let denied = denied_ids(id_texts(p.required@), a);
                if denied.len() > 0 || (kind == ToolKind::Command && p.scans_project) {
                    Some(
                        error_view(
                            call_id,
                            ToolResultStatus::Rejected,
                            AGENT_WORKING_SET_DENIED@,
                            "tool access exceeds the session working set"@,
                            working_set_details(denied, p.scans_project, a),
                        ),
                    )
                } else {
                    None
                }
            },
        },
    }
}

fn denied_documents(required: &Vec<DocumentId>, allowed: &Vec<DocumentId>) -> (d: Vec<DocumentId>)
    ensures
        id_texts(d@) == denied_ids(id_texts(required@), id_texts(allowed@)),
{
    let ghost req = id_texts(required@);
    let ghost al = id_texts(allowed@);
    let mut out: Vec<DocumentId> = Vec::new();
    let mut i: usize = 0;
    assert(id_texts(out@) =~= denied_ids(req.take(0), al));
    while i < required.len()
        invariant
            req == id_texts(required@),
            al == id_texts(allowed@),
            i <= required@.len(),
            id_texts(out@) == denied_ids(req.take(i as int), al),
        decreases required@.len() - i,
    {
        assert(req.take(i + 1).drop_last() =~= req.take(i as int));
        assert(req.take(i + 1).last() == req[i as int]);
        let id = &required[i];
        let mut found = false;
        let mut j: usize = 0;
        while j < allowed.len()
            invariant
                al == id_texts(allowed@),
                j <= allowed@.len(),
                found == exists|m: int| 0 <= m < j && al[m] == id.view(),
            decreases allowed@.len() - j,
        {
            if allowed[j].same(id) {
                found = true;
            }
            proof {
                if found && !(exists|m: int| 0 <= m < j && al[m] == id.view()) {
                    assert(al[j as int] == id.view());
                }
            }
            j = j + 1;
        }
        let ghost before = out@;
        if !found {
            out.push(id.clone());
            assert(id_texts(out@) =~= id_texts(before).push(id.view()));
        }
        proof {
            if found {
                let m = choose|m: int| 0 <= m < j && al[m] == id.view();
                assert(al.contains(id.view()));
            } else {
                assert(!al.contains(id.view())) by {
                    if al.contains(id.view()) {
                        let m = choose|m: int| 0 <= m < al.len() && al[m] == id.view();
                        assert(0 <= m < j);
                    }
                }
            }
            assert(req[i as int] == id.view());
        }
        i = i + 1;
    }
    assert(req.take(i as int) =~= req);
    out
}

/// Whether a planned access is refused (see `access_view`); `None` lets the call go on.
pub fn access_outcome(
    call: &ToolCall,
    kind: ToolKind,
    plan: Result<DocumentAccessPlan, CommandError>,
    allowed: Option<&Vec<DocumentId>>,
) -> (r: Option<ToolResult>)
    ensures
        match access_view(
            call.id@,
            call.tool.view(),
            kind,
            plan,
            match allowed {
                Some(a) => Some(id_texts(a@)),
                None => None,
            },
        ) {
            Some(v) => r matches Some(x) && x.view() == v,
            None => r is None,
        },
{
    match plan {
        Err(e) => Some(error_result(call, ToolResultStatus::Rejected, AGENT_ACCESS_PLAN_INVALID, e.message(), tool_details_json(call))),
        Ok(p) => match allowed {
            None => None,
            Some(a) => {
                let denied = denied_documents(&p.required, a);
                if denied.len() > 0 || (kind == ToolKind::Command && p.scans_project) {
                    let mut ms: Vec<(String, JsonValue)> = Vec::new();
                    ms.push(entry("denied_documents", ids_json(&denied)));
                    ms.push(entry("project_scan", JsonValue::Bool(p.scans_project)));
                    ms.push(entry("working_set", ids_json(a)));
                    let details = object_of(ms);
                    assert(members_model(ms@) =~= working_set_details(id_texts(denied@), p.scans_project, id_texts(a@))->Object_0);
                    Some(
                        error_result(
                            call,
                            ToolResultStatus::Rejected,
                            AGENT_WORKING_SET_DENIED,
                            string_of("tool access exceeds the session working set"),
                            details,
                        ),
                    )
                } else {
                    None
                }
            },
        },
    }
}

} // verus!
