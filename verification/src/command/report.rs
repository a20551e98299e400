use super::diff::{diff_views, DiffView, DocumentDiff};
use super::{ReportView, TransactionReport, TransactionStatus};
use crate::diagnostics_json::{bag_model, optional_model};
use crate::json::{items_model, json_clone, json_string, members_model, model, JsonModel, JsonValue};
use crate::stage_json::{array_of, entry, object_of, text_model};
use vstd::prelude::*;

verus! {

/// A transaction status as JSON (`"previewed"` or `"applied"`).
pub open spec fn status_model(s: TransactionStatus) -> JsonModel {
    match s {
        TransactionStatus::Previewed => text_model("previewed"@),
        TransactionStatus::Applied => text_model("applied"@),
    }
}

/// A document difference as JSON.
pub open spec fn diff_model(d: DiffView) -> JsonModel {
    JsonModel::Object(
        seq![
            ("after_hash"@, optional_model(d.after_hash)),
            ("before_hash"@, optional_model(d.before_hash)),
            ("change"@, text_model(d.change)),
            ("document_id"@, text_model(d.document_id)),
        ],
    )
}

/// A transaction report as JSON.
pub open spec fn report_model(r: ReportView) -> JsonModel {
    JsonModel::Object(
        seq![
            ("actor"@, text_model(r.actor)),
            ("command"@, text_model(r.command)),
            ("diagnostics"@, bag_model(r.diagnostics)),
            ("document_diffs"@, JsonModel::Array(Seq::new(r.document_diffs.len(), |i: int| diff_model(r.document_diffs[i])))),
            ("output"@, r.output),
            ("status"@, status_model(r.status)),
            ("transaction_id"@, text_model(r.transaction_id)),
        ],
    )
}

fn optional_text_json(o: &Option<String>) -> (v: JsonValue)
    ensures
        model(v) == optional_model(super::diff::opt_text(*o)),
{
    match o {
        Some(s) => json_string(s.as_str()),
        None => JsonValue::Null,
    }
}

impl DocumentDiff {
    /// The difference as JSON.
    pub fn to_json(&self) -> (v: JsonValue)
        ensures
            model(v) == diff_model(self.view()),
    {
        let mut ms: Vec<(String, JsonValue)> = Vec::new();
        ms.push(entry("after_hash", optional_text_json(&self.after_hash)));
        ms.push(entry("before_hash", optional_text_json(&self.before_hash)));
        ms.push(entry("change", json_string(self.change.as_str())));
        ms.push(entry("document_id", json_string(self.document_id.as_str())));
        let v = object_of(ms);
        assert(members_model(ms@) =~= diff_model(self.view())->Object_0);
        v
    }
}

impl TransactionReport {
    /// The report as JSON.
    pub fn to_json(&self) -> (v: JsonValue)
        ensures
            model(v) == report_model(self.view()),
    {
        let ghost rv = self.view();
        let mut diffs: Vec<JsonValue> = Vec::new();
        let mut i: usize = 0;
        while i < self.document_diffs.len()
            invariant
                rv == self.view(),
                i <= self.document_diffs@.len(),
                diffs@.len() == i,
                forall|j: int| 0 <= j < i ==> model(#[trigger] diffs@[j]) == diff_model(rv.document_diffs[j]),
            decreases self.document_diffs@.len() - i,
        {
            diffs.push(self.document_diffs[i].to_json());
            i = i + 1;
        }
        assert(items_model(diffs@) =~= Seq::new(rv.document_diffs.len(), |i: int| diff_model(rv.document_diffs[i])));
        let status = match self.status {
            TransactionStatus::Previewed => json_string("previewed"),
            TransactionStatus::Applied => json_string("applied"),
        };
        let mut ms: Vec<(String, JsonValue)> = Vec::new();
        ms.push(entry("actor", json_string(self.actor.as_str())));
        ms.push(entry("command", json_string(self.command.as_str())));
        ms.push(entry("diagnostics", self.diagnostics.to_json()));
        ms.push(entry("document_diffs", array_of(diffs)));
        ms.push(entry("output", json_clone(&self.output)));
        ms.push(entry("status", status));
        ms.push(entry("transaction_id", json_string(self.transaction_id.as_str())));
        let v = object_of(ms);
        assert(members_model(ms@) =~= report_model(rv)->Object_0);
        v
    }
}

} // verus!
