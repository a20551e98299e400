use crate::diagnostics::{Diagnostic, DiagnosticBag, DiagnosticLocation, DiagnosticView, LocationView, Severity};
use crate::json::{items_model, json_string, model, JsonModel, JsonValue};
use crate::stage_json::{array_of, entry, object_of, text_model};
use vstd::prelude::*;

verus! {

/// A severity as JSON (`"info"`, `"warning"` or `"error"`).
pub open spec fn severity_model(s: Severity) -> JsonModel {
    match s {
        Severity::Info => text_model("info"@),
        Severity::Warning => text_model("warning"@),
        Severity::Error => text_model("error"@),
    }
}

/// An optional text as JSON (`null` when absent).
pub open spec fn optional_model(o: Option<Seq<char>>) -> JsonModel {
    match o {
        Some(s) => text_model(s),
        None => JsonModel::Null,
    }
}

/// A location as JSON.
pub open spec fn location_model(l: LocationView) -> JsonModel {
    JsonModel::Object(
        seq![
            ("document"@, optional_model(l.document)),
            ("field_path"@, optional_model(l.field_path)),
            ("object"@, optional_model(l.object)),
        ],
    )
}

/// A diagnostic as JSON (members in ascending key order).
pub open spec fn diagnostic_model(d: DiagnosticView) -> JsonModel {
    JsonModel::Object(
        seq![
            ("auto_fixable"@, JsonModel::Bool(d.auto_fixable)),
            ("code"@, text_model(d.code)),
            ("location"@, match d.location {
                Some(l) => location_model(l),
                None => JsonModel::Null,
            }),
            ("message"@, text_model(d.message)),
            ("severity"@, severity_model(d.severity)),
            ("suggested_tools"@, JsonModel::Array(Seq::new(d.suggested_tools.len(), |i: int| text_model(d.suggested_tools[i])))),
        ],
    )
}

/// A list of diagnostics as a JSON array.
pub open spec fn diagnostics_model(ds: Seq<DiagnosticView>) -> JsonModel {
    JsonModel::Array(Seq::new(ds.len(), |i: int| diagnostic_model(ds[i])))
}

/// A bag as JSON: `{"diagnostics": [..]}`.
pub open spec fn bag_model(ds: Seq<DiagnosticView>) -> JsonModel {
    JsonModel::Object(seq![("diagnostics"@, diagnostics_model(ds))])
}

/// A severity as JSON.
pub fn severity_json(s: Severity) -> (v: JsonValue)
    ensures
        model(v) == severity_model(s),
{
    match s {
        Severity::Info => json_string("info"),
        Severity::Warning => json_string("warning"),
        Severity::Error => json_string("error"),
    }
}

fn optional_json(o: &Option<String>) -> (v: JsonValue)
    ensures
        model(v) == optional_model(
            match o {
                Some(s) => Some(s@),
                None => None,
            },
        ),
{
    match o {
        Some(s) => json_string(s.as_str()),
        None => JsonValue::Null,
    }
}

fn location_json(l: &DiagnosticLocation) -> (v: JsonValue)
    ensures
        model(v) == location_model(l.view()),
{
    let document = match &l.document {
        Some(d) => json_string(d.as_str()),
        None => JsonValue::Null,
    };
    let object = match &l.object {
        Some(o) => json_string(o.as_str()),
        None => JsonValue::Null,
    };
    let mut ms: Vec<(String, JsonValue)> = Vec::new();
    ms.push(entry("document", document));
    ms.push(entry("field_path", optional_json(&l.field_path)));
    ms.push(entry("object", object));
    let v = object_of(ms);
    assert(crate::json::members_model(ms@) =~= location_model(l.view())->Object_0);
    v
}

impl Diagnostic {
    /// The diagnostic as JSON.
    pub fn to_json(&self) -> (v: JsonValue)
        ensures
            model(v) == diagnostic_model(self.view()),
    {
        let ghost dv = self.view();
        let mut tools: Vec<JsonValue> = Vec::new();
        let mut i: usize = 0;
        while i < self.suggested_tools.len()
            invariant
                dv == self.view(),
                i <= self.suggested_tools@.len(),
                tools@.len() == i,
                forall|j: int| 0 <= j < i ==> model(#[trigger] tools@[j]) == text_model(dv.suggested_tools[j]),
            decreases self.suggested_tools@.len() - i,
        {
            tools.push(json_string(self.suggested_tools[i].as_str()));
            i = i + 1;
        }
        assert(items_model(tools@) =~= Seq::new(dv.suggested_tools.len(), |i: int| text_model(dv.suggested_tools[i])));
        let location = match &self.location {
            Some(l) => location_json(l),
            None => JsonValue::Null,
        };
        let mut ms: Vec<(String, JsonValue)> = Vec::new();
        ms.push(entry("auto_fixable", JsonValue::Bool(self.auto_fixable)));
        ms.push(entry("code", json_string(self.code.as_str())));
        ms.push(entry("location", location));
        ms.push(entry("message", json_string(self.message.as_str())));
        ms.push(entry("severity", severity_json(self.severity)));
        ms.push(entry("suggested_tools", array_of(tools)));
        let v = object_of(ms);
        assert(crate::json::members_model(ms@) =~= diagnostic_model(dv)->Object_0);
        v
    }
}

/// A list of diagnostics as a JSON array.
pub fn diagnostics_json(ds: &Vec<Diagnostic>) -> (v: JsonValue)
    ensures
        model(v) == diagnostics_model(crate::diagnostics::views(ds@)),
{
    let ghost dv = crate::diagnostics::views(ds@);
    let mut items: Vec<JsonValue> = Vec::new();
    let mut i: usize = 0;
    while i < ds.len()
        invariant
            dv == crate::diagnostics::views(ds@),
            i <= ds@.len(),
            items@.len() == i,
            forall|j: int| 0 <= j < i ==> model(#[trigger] items@[j]) == diagnostic_model(dv[j]),
        decreases ds@.len() - i,
    {
        items.push(ds[i].to_json());
        i = i + 1;
    }
    assert(items_model(items@) =~= Seq::new(dv.len(), |i: int| diagnostic_model(dv[i])));
    array_of(items)
}

impl DiagnosticBag {
    /// The bag as JSON: `{"diagnostics": [..]}`.
    pub fn to_json(&self) -> (v: JsonValue)
        ensures
            model(v) == bag_model(self.view()),
    {
        let mut ms: Vec<(String, JsonValue)> = Vec::new();
        ms.push(entry("diagnostics", diagnostics_json(&self.diagnostics)));
        let v = object_of(ms);
        assert(crate::json::members_model(ms@) =~= bag_model(self.view())->Object_0);
        v
    }
}

} // verus!
