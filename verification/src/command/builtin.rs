use super::input::{
    count_member, count_member_of, document_id_member, id_member, member, not_object, not_object_message,
    text_member, text_member_of, type_id_member,
};
use super::{CommandDescriptor, CommandError, CommandHandler, CommandRegistry, EngineState};
use crate::access::{id_texts, DocumentAccessPlan};
use crate::content::{
    lemma_view_id, ContentError, DocumentEnvelope, DocumentHeader, DocumentStore, EnvelopeView,
};
use crate::diagnostics::{document_diagnostic, plain, Diagnostic, DiagnosticBag, DiagnosticView, Severity};
use crate::ids::{lemma_identifier_text, DocumentId, EngineTypeId, ToolId};
use crate::json::{
    json_clone, json_object, json_string, lemma_member_set_get, lemma_model_parts, member_get, member_set, member_value,
    members_model, model, object_model, set_member, JsonModel, JsonValue,
};
use crate::keyed::{adds, ascending, key_index, key_slot};
use crate::permissions::{Permission, PermissionSet};
use crate::schema::builder::object_of_fields;
use crate::schema::{FieldSchema, SchemaNode, ValueKind};
use crate::text::string_of;
use vstd::prelude::*;

verus! {

/// The fields of a document-creation input.
pub struct CreateInput {
    pub id: Seq<char>,
    pub type_id: Seq<char>,
    pub display_name: Seq<char>,
    pub schema_version: u32,
    pub payload: JsonModel,
}

/// What a document-creation input holds, or why it is refused (fields checked in
/// declaration order; `schema_version` defaults to 1, `payload` to `null`).
pub open spec fn create_input(v: JsonModel) -> Result<CreateInput, Seq<char>> {
    match v {
        JsonModel::Object(ms) => match id_member(ms, "id"@) {
            Err(e) => Err(e),
            Ok(id) => match id_member(ms, "type_id"@) {
                Err(e) => Err(e),
                Ok(type_id) => match text_member(ms, "display_name"@) {
                    Err(e) => Err(e),
                    Ok(display_name) => match count_member(ms, "schema_version"@, 1) {
                        Err(e) => Err(e),
                        Ok(schema_version) => Ok(
                            CreateInput {
                                id,
                                type_id,
                                display_name,
                                schema_version,
                                payload: match member_get(ms, "payload"@) {
                                    Some(p) => p,
                                    None => JsonModel::Null,
                                },
                            },
                        ),
                    },
                },
            },
        },
        _ => Err(not_object_message(v, "CreateDocumentInput"@)),
    }
}

/// The document identifier named by a `document_id` input, or why it is refused.
pub open spec fn target_input(v: JsonModel, name: Seq<char>) -> Result<Seq<char>, Seq<char>> {
    match v {
        JsonModel::Object(ms) => id_member(ms, "document_id"@),
        _ => Err(not_object_message(v, name)),
    }
}

/// The payload text of a creation input (the JSON text of its `payload` member).
pub open spec fn created_view(input: JsonValue, c: CreateInput) -> EnvelopeView {
    EnvelopeView {
        id: c.id,
        type_id: c.type_id,
        schema_version: c.schema_version,
        display_name: c.display_name,
        references: Seq::empty(),
        payload: c.payload,
        payload_text: crate::json_text::render(
            match input {
                JsonValue::Object(ms) => member_value(ms@, "payload"@),
                _ => JsonValue::Null,
            },
        ),
    }
}

/// `{"document_id": id}`.
pub open spec fn document_output(id: Seq<char>) -> JsonModel {
    object_model(seq![("document_id"@, JsonModel::String(id))])
}

fn document_output_json(id: &DocumentId) -> (v: JsonValue)
    ensures
        model(v) == document_output(id.view()),
{
    let mut pairs: Vec<(String, JsonValue)> = Vec::new();
    pairs.push((string_of("document_id"), json_string(id.as_str())));
    proof {
        reveal_strlit("document_id");
        assert(members_model(pairs@) =~= seq![("document_id"@, JsonModel::String(id.view()))]);
    }
    json_object(pairs)
}

struct CreateFields {
    id: DocumentId,
    type_id: EngineTypeId,
    display_name: String,
    schema_version: u32,
    payload: JsonValue,
}

fn parse_create(input: &JsonValue) -> (r: Result<CreateFields, String>)
    ensures
        match create_input(model(*input)) {
            Ok(c) => r matches Ok(f) && f.id.view() == c.id && f.type_id.view() == c.type_id
                && f.display_name@ == c.display_name && f.schema_version == c.schema_version
                && model(f.payload) == c.payload && crate::json_text::render(f.payload)
                == crate::json_text::render(
                match *input {
                    JsonValue::Object(ms) => member_value(ms@, "payload"@),
                    _ => JsonValue::Null,
                },
            ),
            Err(m) => r matches Err(e) && e@ == m,
        },
{
    proof {
        lemma_model_parts(*input);
    }
    match input {
        JsonValue::Object(ms) => {
            let id = match document_id_member(ms, "id") {
                Ok(id) => id,
                Err(e) => return Err(e),
            };
            let type_id = match type_id_member(ms, "type_id") {
                Ok(t) => t,
                Err(e) => return Err(e),
            };
            let display_name = match text_member_of(ms, "display_name") {
                Ok(n) => n,
                Err(e) => return Err(e),
            };
            let schema_version = match count_member_of(ms, "schema_version", 1) {
                Ok(n) => n,
                Err(e) => return Err(e),
            };
            let payload = match member(ms, "payload") {
                Some(p) => json_clone(p),
                None => JsonValue::Null,
            };
            Ok(CreateFields { id, type_id, display_name, schema_version, payload })
        },
        _ => Err(not_object(input, "CreateDocumentInput")),
    }
}

fn parse_target(input: &JsonValue, name: &str) -> (r: Result<DocumentId, String>)
    ensures
        match target_input(model(*input), name@) {
            Ok(s) => r matches Ok(id) && id.view() == s,
            Err(m) => r matches Err(e) && e@ == m,
        },
{
    proof {
        lemma_model_parts(*input);
    }
    match input {
        JsonValue::Object(ms) => document_id_member(ms, "document_id"),
        _ => Err(not_object(input, name)),
    }
}

pub(crate) fn static_tool(name: &'static str) -> (id: ToolId)
    requires
        name@.len() > 0,
        crate::ids::all_identifier_chars(name@),
    ensures
        id.view() == name@,
{
    proof {
        lemma_identifier_text(name@);
    }
    ToolId::from_static(name)
}

pub(crate) fn edit_content() -> (p: PermissionSet)
    ensures
        p.view() == set![Permission::EditContent],
{
    let mut v: Vec<Permission> = Vec::new();
    v.push(Permission::EditContent);
    let p = PermissionSet::new(v);
    assert(v@ == seq![Permission::EditContent]);
    assert(seq![Permission::EditContent].to_set() =~= set![Permission::EditContent]) by {
        assert(seq![Permission::EditContent][0] == Permission::EditContent);
    }
    p
}

pub(crate) fn type_schema(t: &str) -> (v: JsonValue) {
    let mut pairs: Vec<(String, JsonValue)> = Vec::new();
    pairs.push((string_of("type"), json_string(t)));
    json_object(pairs)
}

fn names_array(names: Vec<&str>) -> (v: JsonValue) {
    let mut out: Vec<JsonValue> = Vec::new();
    let mut i: usize = 0;
    while i < names.len()
        invariant
            i <= names@.len(),
        decreases names@.len() - i,
    {
        out.push(json_string(names[i]));
        i = i + 1;
    }
    JsonValue::Array(out)
}

pub(crate) fn object_schema(required: Vec<&str>, properties: Vec<(String, JsonValue)>) -> (v: JsonValue) {
    let mut pairs: Vec<(String, JsonValue)> = Vec::new();
    pairs.push((string_of("type"), json_string("object")));
    pairs.push((string_of("required"), names_array(required)));
    pairs.push((string_of("properties"), json_object(properties)));
    json_object(pairs)
}

pub(crate) fn one_string(s: &str) -> (v: Vec<String>)
    ensures
        v@.len() == 1,
        v@[0]@ == s@,
{
    let mut v: Vec<String> = Vec::new();
    v.push(string_of(s));
    v
}

pub open spec fn create_plans(input: JsonValue, r: Result<DocumentAccessPlan, CommandError>) -> bool {
    match create_input(model(input)) {
        Ok(c) => r matches Ok(p) && id_texts(p.required@) == seq![c.id] && !p.scans_project,
        Err(m) => r matches Err(CommandError::Serialization(e)) && e@ == m,
    }
}

pub open spec fn create_applies(input: JsonValue, before: Seq<(Seq<char>, EnvelopeView)>, after: Seq<(Seq<char>, EnvelopeView)>, r: Result<JsonValue, CommandError>) -> bool {
    match create_input(model(input)) {
        Err(m) => r matches Err(CommandError::Serialization(e)) && e@ == m
            && after == before,
        Ok(c) => match key_index(before, c.id) {
            Some(_) => r matches Err(CommandError::Content(ContentError::DuplicateDocument(d)))
                && d.view() == c.id && after == before,
            None => r matches Ok(out) && model(out) == document_output(c.id)
                && after == before.insert(
                key_slot(before, c.id),
                (c.id, created_view(input, c)),
            ),
        },
    }
}

pub open spec fn delete_plans(input: JsonValue, r: Result<DocumentAccessPlan, CommandError>) -> bool {
    match target_input(model(input), "DeleteDocumentInput"@) {
        Ok(id) => r matches Ok(p) && id_texts(p.required@) == seq![id] && !p.scans_project,
        Err(m) => r matches Err(CommandError::Serialization(e)) && e@ == m,
    }
}

pub open spec fn delete_applies(input: JsonValue, before: Seq<(Seq<char>, EnvelopeView)>, after: Seq<(Seq<char>, EnvelopeView)>, r: Result<JsonValue, CommandError>) -> bool {
    match target_input(model(input), "DeleteDocumentInput"@) {
        Err(m) => r matches Err(CommandError::Serialization(e)) && e@ == m
            && after == before,
        Ok(id) => match key_index(before, id) {
            None => r matches Err(CommandError::Content(ContentError::DocumentNotFound(d)))
                && d.view() == id && after == before,
            Some(i) => r matches Ok(out) && model(out) == document_output(id)
                && after == before.remove(i),
        },
    }
}

pub open spec fn set_field_plans(input: JsonValue, r: Result<DocumentAccessPlan, CommandError>) -> bool {
    match set_field_input(model(input)) {
        Ok(c) => r matches Ok(p) && id_texts(p.required@) == seq![c.document_id] && !p.scans_project,
        Err(m) => r matches Err(CommandError::Serialization(e)) && e@ == m,
    }
}

pub open spec fn set_field_applies(input: JsonValue, before: Seq<(Seq<char>, EnvelopeView)>, after: Seq<(Seq<char>, EnvelopeView)>, r: Result<JsonValue, CommandError>) -> bool {
    match set_field_input(model(input)) {
        Err(m) => r matches Err(CommandError::Serialization(e)) && e@ == m
            && after == before,
        Ok(c) => if c.path.len() == 0 {
            r matches Err(CommandError::InvalidInput(e)) && e@ == "path cannot be empty"@
                && after == before
        } else {
            match key_index(before, c.document_id) {
                None => r matches Err(CommandError::Content(ContentError::DocumentNotFound(d)))
                    && d.view() == c.document_id && after
                    == before,
                Some(i) => match set_path(before[i].1.payload, c.path, c.value) {
                    Err(m) => r matches Err(CommandError::InvalidInput(e)) && e@ == m
                        && after == before,
                    Ok(p) => r matches Ok(out) && model(out) == set_field_output(c.document_id, c.path)
                        && after == before.update(
                        i,
                        (
                            c.document_id,
                            with_payload(
                                before[i].1,
                                p,
                                after[i].1.payload_text,
                            ),
                        ),
                    ),
                },
            }
        },
    }
}

pub open spec fn create_diags(input: JsonValue, documents: Seq<(Seq<char>, EnvelopeView)>) -> Seq<DiagnosticView> {
    match create_input(model(input)) {
        Err(m) => seq![plain("COMMAND_INPUT_INVALID"@, Severity::Error, m)],
        Ok(c) => if key_index(documents, c.id) is Some {
            seq![
                document_diagnostic(
                    "DOCUMENT_ALREADY_EXISTS"@,
                    Severity::Error,
                    "document identifier already exists"@,
                    c.id,
                ),
            ]
        } else {
            Seq::empty()
        },
    }
}

/// Creates one authoring document.
pub struct CreateDocumentCommand;

/// Deletes one authoring document.
pub struct DeleteDocumentCommand;

/// Sets one JSON field of a document's payload.
pub struct SetDocumentFieldCommand;

impl CreateDocumentCommand {
    /// `document.create`, needing `EditContent`.
    pub fn describe(&self) -> (d: CommandDescriptor)
        ensures
            d.id.view() == "document.create"@,
            d.required_permissions.view() == set![Permission::EditContent],
    {
        proof {
            reveal_strlit("document.create");
            reveal_strlit("project.document.get");
        }
        let mut props: Vec<(String, JsonValue)> = Vec::new();
        props.push((string_of("id"), type_schema("string")));
        props.push((string_of("type_id"), type_schema("string")));
        props.push((string_of("display_name"), type_schema("string")));
        let mut version: Vec<(String, JsonValue)> = Vec::new();
        version.push((string_of("type"), json_string("integer")));
        version.push((string_of("minimum"), crate::json::json_u64(1)));
        props.push((string_of("schema_version"), json_object(version)));
        props.push((string_of("payload"), json_object(Vec::new())));
        let mut related: Vec<ToolId> = Vec::new();
        related.push(static_tool("project.document.get"));
        CommandDescriptor {
            id: static_tool("document.create"),
            title: string_of("Create document"),
            description: string_of("Create a typed authoring document in the current transaction."),
            input_schema: object_schema(vec!["id", "type_id", "display_name"], props),
            output_schema: type_schema("object"),
            required_permissions: edit_content(),
            side_effects: one_string("creates_document"),
            related_tools: related,
        }
    }

    /// The input's document, once the input is well formed.
    pub fn access(&self, input: &JsonValue) -> (r: Result<DocumentAccessPlan, CommandError>)
        ensures
            create_plans(*input, r),
    {
        match parse_create(input) {
            Ok(f) => Ok(DocumentAccessPlan::document(f.id)),
            Err(e) => Err(CommandError::Serialization(e)),
        }
    }

    /// An input that is malformed, or names an existing document, is refused.
    pub fn check(&self, input: &JsonValue, state: &EngineState) -> (bag: DiagnosticBag)
        ensures
            bag.view() == create_diags(*input, state.documents.view()),
    {
        let mut bag = DiagnosticBag::new();
        match parse_create(input) {
            Ok(f) => {
                if state.documents.get(&f.id).is_ok() {
                    bag.push(
                        Diagnostic::error(
                            "DOCUMENT_ALREADY_EXISTS",
                            string_of("document identifier already exists"),
                        ).at_document(f.id),
                    );
                }
            },
            Err(e) => bag.push(Diagnostic::error("COMMAND_INPUT_INVALID", e)),
        }
        assert(bag.view() =~= match create_input(model(*input)) {
            Err(m) => seq![plain("COMMAND_INPUT_INVALID"@, Severity::Error, m)],
            Ok(c) => if key_index(state.documents.view(), c.id) is Some {
                seq![
                    document_diagnostic(
                        "DOCUMENT_ALREADY_EXISTS"@,
                        Severity::Error,
                        "document identifier already exists"@,
                        c.id,
                    ),
                ]
            } else {
                Seq::empty()
            },
        });
        bag
    }

    /// Inserts the described document with no references.
    pub fn run(&self, input: &JsonValue, state: &mut EngineState) -> (r: Result<JsonValue, CommandError>)
        ensures
            create_applies(*input, old(state).documents.view(), final(state).documents.view(), r),
    {
        let f = match parse_create(input) {
            Ok(f) => f,
            Err(e) => return Err(CommandError::Serialization(e)),
        };
        let out = document_output_json(&f.id);
        let id = f.id.clone();
        let document = DocumentEnvelope {
            header: DocumentHeader {
                id: f.id,
                type_id: f.type_id,
                schema_version: f.schema_version,
                display_name: f.display_name,
            },
            references: Vec::new(),
            payload: f.payload,
        };
        proof {
            reveal(DocumentEnvelope::view);
            assert(crate::content::references_view(document.references@) =~= Seq::empty());
        }
        match state.documents.insert(document) {
            Ok(()) => Ok(out),
            Err(e) => Err(CommandError::Content(e)),
        }
    }
}

impl DeleteDocumentCommand {
    /// `document.delete`, needing `EditContent`.
    pub fn describe(&self) -> (d: CommandDescriptor)
        ensures
            d.id.view() == "document.delete"@,
            d.required_permissions.view() == set![Permission::EditContent],
    {
        proof {
            reveal_strlit("document.delete");
            reveal_strlit("project.references.find");
        }
        let mut props: Vec<(String, JsonValue)> = Vec::new();
        props.push((string_of("document_id"), type_schema("string")));
        let mut related: Vec<ToolId> = Vec::new();
        related.push(static_tool("project.references.find"));
        CommandDescriptor {
            id: static_tool("document.delete"),
            title: string_of("Delete document"),
            description: string_of("Delete one authoring document atomically."),
            input_schema: object_schema(vec!["document_id"], props),
            output_schema: type_schema("object"),
            required_permissions: edit_content(),
            side_effects: one_string("deletes_document"),
            related_tools: related,
        }
    }

    /// The input's document, once the input is well formed.
    pub fn access(&self, input: &JsonValue) -> (r: Result<DocumentAccessPlan, CommandError>)
        ensures
            delete_plans(*input, r),
    {
        match parse_target(input, "DeleteDocumentInput") {
            Ok(id) => Ok(DocumentAccessPlan::document(id)),
            Err(e) => Err(CommandError::Serialization(e)),
        }
    }

    /// Removes the named document.
    pub fn run(&self, input: &JsonValue, state: &mut EngineState) -> (r: Result<JsonValue, CommandError>)
        ensures
            delete_applies(*input, old(state).documents.view(), final(state).documents.view(), r),
    {
        let id = match parse_target(input, "DeleteDocumentInput") {
            Ok(id) => id,
            Err(e) => return Err(CommandError::Serialization(e)),
        };
        match state.documents.remove(&id) {
            Ok(_) => Ok(document_output_json(&id)),
            Err(e) => Err(CommandError::Content(e)),
        }
    }
}

/// The value after setting `path` to `v` inside `t`: every member on the way must be an
/// object (a missing one is created empty); the last member is set.
pub open spec fn set_path(t: JsonModel, path: Seq<Seq<char>>, v: JsonModel) -> Result<JsonModel, Seq<char>>
    decreases path.len(),
{
    if path.len() == 0 {
        Err("path cannot be empty"@)
    } else if path.len() == 1 {
        match t {
            JsonModel::Object(ms) => Ok(JsonModel::Object(member_set(ms, path[0], v))),
            _ => Err(path[0] + " parent is not an object"@),
        }
    } else {
        match t {
            JsonModel::Object(ms) => {
                let child = match member_get(ms, path[0]) {
                    Some(c) => c,
                    None => JsonModel::Object(Seq::empty()),
                };
                match set_path(child, path.drop_first(), v) {
                    Ok(c) => Ok(JsonModel::Object(member_set(ms, path[0], c))),
                    Err(e) => Err(e),
                }
            },
            _ => Err(path[0] + " is not an object"@),
        }
    }
}

/// The value reached from `t` by following the members named by `q`, if they exist.
pub open spec fn path_get(t: JsonModel, q: Seq<Seq<char>>) -> Option<JsonModel>
    decreases q.len(),
{
    if q.len() == 0 {
        Some(t)
    } else {
        match t {
            JsonModel::Object(ms) => match member_get(ms, q[0]) {
                Some(c) => path_get(c, q.drop_first()),
                None => None,
            },
            _ => None,
        }
    }
}

/// Whether `q` leaves `p`: at some step both reach, they name different members.
pub open spec fn diverges(q: Seq<Seq<char>>, p: Seq<Seq<char>>) -> bool {
    exists|i: int| 0 <= i < q.len() && i < p.len() && q[i] != p[i]
}

proof fn lemma_set_path_target(t: JsonModel, path: Seq<Seq<char>>, v: JsonModel)
    requires
        set_path(t, path, v) is Ok,
    ensures
        path_get(set_path(t, path, v)->Ok_0, path) == Some(v),
    decreases path.len(),
{
    let r = set_path(t, path, v)->Ok_0;
    let ms = t->Object_0;
    let p0 = path[0];
    if path.len() == 1 {
        lemma_member_set_get(ms, p0, v, p0);
        assert(path.drop_first().len() == 0);
        assert(r == JsonModel::Object(member_set(ms, p0, v)));
        assert(path_get(r, path) == path_get(v, path.drop_first()));
    } else {
        let child = match member_get(ms, p0) {
            Some(c) => c,
            None => JsonModel::Object(Seq::empty()),
        };
        let rest = path.drop_first();
        lemma_set_path_target(child, rest, v);
        let c2 = set_path(child, rest, v)->Ok_0;
        assert(r == JsonModel::Object(member_set(ms, p0, c2)));
        lemma_member_set_get(ms, p0, c2, p0);
        assert(path_get(r, path) == path_get(c2, rest));
    }
}

#[verifier::spinoff_prover]
proof fn lemma_set_path_elsewhere(t: JsonModel, path: Seq<Seq<char>>, v: JsonModel, q: Seq<Seq<char>>)
    requires
        set_path(t, path, v) is Ok,
        diverges(q, path),
    ensures
        path_get(set_path(t, path, v)->Ok_0, q) == path_get(t, q),
    decreases path.len(),
{
    let r = set_path(t, path, v)->Ok_0;
    let ms = t->Object_0;
    let p0 = path[0];
    let i = choose|i: int| 0 <= i < q.len() && i < path.len() && q[i] != path[i];
    if path.len() == 1 {
        assert(i == 0);
        assert(r == JsonModel::Object(member_set(ms, p0, v)));
        lemma_member_set_get(ms, p0, v, q[0]);
    } else {
        let child = match member_get(ms, p0) {
            Some(c) => c,
            None => JsonModel::Object(Seq::empty()),
        };
        let rest = path.drop_first();
        let c2 = set_path(child, rest, v)->Ok_0;
        assert(r == JsonModel::Object(member_set(ms, p0, c2)));
        lemma_member_set_get(ms, p0, c2, q[0]);
        if q[0] == p0 {
            let q1 = q.drop_first();
            assert(0 <= i - 1 < q1.len() && i - 1 < rest.len() && q1[i - 1] != rest[i - 1]);
            assert(diverges(q1, rest));
            lemma_set_path_elsewhere(child, rest, v, q1);
            assert(path_get(r, q) == path_get(c2, q1));
            if member_get(ms, p0) is None {
                crate::json::lemma_find_key(Seq::<(Seq<char>, JsonModel)>::empty(), q1[0]);
                assert(member_get(Seq::<(Seq<char>, JsonModel)>::empty(), q1[0]) is None);
            }
        }
    }
}

/// Setting a field puts the value at its path and leaves every value whose path leaves the
/// field's path as it was: objects along the path are kept with their other members, and
/// no unrelated member at any level is removed or changed.
pub proof fn lemma_set_path_changes_only_its_target(t: JsonModel, path: Seq<Seq<char>>, v: JsonModel)
    requires
        set_path(t, path, v) is Ok,
    ensures
        path_get(set_path(t, path, v)->Ok_0, path) == Some(v),
        forall|q: Seq<Seq<char>>| diverges(q, path) ==> path_get(set_path(t, path, v)->Ok_0, q) == path_get(t, q),
{
    lemma_set_path_target(t, path, v);
    assert forall|q: Seq<Seq<char>>| diverges(q, path) implies path_get(set_path(t, path, v)->Ok_0, q) == path_get(t, q) by {
        lemma_set_path_elsewhere(t, path, v, q);
    }
}

/// The texts of a path.
pub open spec fn path_texts(path: Seq<String>) -> Seq<Seq<char>> {
    Seq::new(path.len(), |i: int| path[i]@)
}

fn suffixed(head: &String, tail: &str) -> (m: String)
    ensures
        m@ == head@ + tail@,
{
    let mut m = head.clone();
    crate::text::push_str(&mut m, tail);
    m
}

/// Sets `path[k..]` inside `target` to `value` (see `set_path`); on failure `target` is
/// left as it was.
pub fn set_json_path(target: &mut JsonValue, path: &Vec<String>, k: usize, value: JsonValue) -> (r: Result<(), CommandError>)
    requires
        k <= path@.len(),
    ensures
        match set_path(model(*old(target)), path_texts(path@).skip(k as int), model(value)) {
            Ok(t) => r is Ok && model(*final(target)) == t,
            Err(m) => r matches Err(CommandError::InvalidInput(e)) && e@ == m && *final(target) == *old(target),
        },
    decreases path@.len() - k,
{
    proof {
        lemma_model_parts(*target);
    }
    let ghost rest = path_texts(path@).skip(k as int);
    if k == path.len() {
        proof {
            reveal_strlit("path cannot be empty");
        }
        return Err(CommandError::InvalidInput(string_of("path cannot be empty")));
    }
    assert(rest[0] == path@[k as int]@);
    if k + 1 == path.len() {
        match target {
            JsonValue::Object(ms) => {
                set_member(ms, path[k].clone(), value);
                proof {
                    lemma_model_parts(*target);
                }
                Ok(())
            },
            _ => Err(CommandError::InvalidInput(suffixed(&path[k], " parent is not an object"))),
        }
    } else {
        match target {
            JsonValue::Object(ms) => {
                let key = path[k].clone();
                let mut child = match find_child(ms, &key) {
                    Some(c) => c,
                    None => {
                        let empty: Vec<(String, JsonValue)> = Vec::new();
                        let e = JsonValue::Object(empty);
                        proof {
                            lemma_model_parts(e);
                            assert(members_model(empty@) =~= Seq::empty());
                        }
                        e
                    },
                };
                proof {
                    assert(path_texts(path@).skip(k as int + 1) =~= rest.drop_first());
                }
                let r = set_json_path(&mut child, path, k + 1, value);
                match r {
                    Ok(()) => {
                        set_member(ms, key, child);
                        proof {
                            lemma_model_parts(*target);
                        }
                        Ok(())
                    },
                    Err(e) => Err(e),
                }
            },
            _ => Err(CommandError::InvalidInput(suffixed(&path[k], " is not an object"))),
        }
    }
}

fn find_child(ms: &Vec<(String, JsonValue)>, key: &String) -> (r: Option<JsonValue>)
    ensures
        match member_get(members_model(ms@), key@) {
            Some(c) => r matches Some(v) && model(v) == c,
            None => r is None,
        },
{
    match crate::json::find_member(ms, key) {
        Some(i) => {
            assert(members_model(ms@)[i as int].1 == model(ms@[i as int].1));
            Some(json_clone(&ms[i].1))
        },
        None => None,
    }
}

/// The fields of a set-field input.
pub struct SetFieldInput {
    pub document_id: Seq<char>,
    pub path: Seq<Seq<char>>,
    pub value: JsonModel,
}

/// Position of the first member of `xs` that is not a string.
pub open spec fn first_non_string(xs: Seq<JsonModel>) -> int {
    choose|i: int| 0 <= i < xs.len() && !(xs[i] is String) && forall|j: int| 0 <= j < i ==> (#[trigger] xs[j]) is String
}

/// The texts of a list of JSON strings, or the refusal of its first non-string.
pub open spec fn string_items(xs: Seq<JsonModel>) -> Result<Seq<Seq<char>>, Seq<char>> {
    if forall|i: int| 0 <= i < xs.len() ==> (#[trigger] xs[i]) is String {
        Ok(Seq::new(xs.len(), |i: int| xs[i]->String_0))
    } else {
        Err(crate::command::input::type_message(xs[first_non_string(xs)], "a string"@))
    }
}

/// What a set-field input holds, or why it is refused.
pub open spec fn set_field_input(v: JsonModel) -> Result<SetFieldInput, Seq<char>> {
    match v {
        JsonModel::Object(ms) => match id_member(ms, "document_id"@) {
            Err(e) => Err(e),
            Ok(id) => match member_get(ms, "path"@) {
                None => Err(crate::command::input::missing_message("path"@)),
                Some(JsonModel::Array(xs)) => match string_items(xs) {
                    Err(e) => Err(e),
                    Ok(path) => match member_get(ms, "value"@) {
                        None => Err(crate::command::input::missing_message("value"@)),
                        Some(value) => Ok(SetFieldInput { document_id: id, path, value }),
                    },
                },
                Some(other) => Err(crate::command::input::type_message(other, "a sequence"@)),
            },
        },
        _ => Err(not_object_message(v, "SetFieldInput"@)),
    }
}

/// `{"document_id": id, "path": [..]}`.
pub open spec fn set_field_output(id: Seq<char>, path: Seq<Seq<char>>) -> JsonModel {
    object_model(
        seq![
            ("document_id"@, JsonModel::String(id)),
            ("path"@, JsonModel::Array(Seq::new(path.len(), |i: int| JsonModel::String(path[i])))),
        ],
    )
}

struct SetFields {
    document_id: DocumentId,
    path: Vec<String>,
    value: JsonValue,
}

fn parse_strings(xs: &Vec<JsonValue>) -> (r: Result<Vec<String>, String>)
    ensures
        match string_items(crate::json::items_model(xs@)) {
            Ok(t) => r matches Ok(v) && path_texts(v@) == t,
            Err(m) => r matches Err(e) && e@ == m,
        },
{
    let ghost all = crate::json::items_model(xs@);
    let mut out: Vec<String> = Vec::new();
    let mut i: usize = 0;
    while i < xs.len()
        invariant
            all == crate::json::items_model(xs@),
            i <= xs@.len(),
            out@.len() == i,
            forall|j: int| 0 <= j < i ==> (#[trigger] all[j]) is String,
            forall|j: int| 0 <= j < i ==> (#[trigger] out@[j])@ == all[j]->String_0,
        decreases xs@.len() - i,
    {
        match &xs[i] {
            JsonValue::String(t) => {
                out.push(t.clone());
            },
            other => {
                proof {
                    assert(!(all[i as int] is String));
                    let w = first_non_string(all);
                    if w < i {
                        assert(all[w] is String);
                    } else if w > i {
                        assert(all[i as int] is String);
                    }
                }
                return Err(crate::command::input::wrong_type_pub(other, "a string"));
            },
        }
        i = i + 1;
    }
    assert(path_texts(out@) =~= Seq::new(all.len(), |j: int| all[j]->String_0));
    Ok(out)
}

#[verifier::rlimit(40)]
fn parse_set_field(input: &JsonValue) -> (r: Result<SetFields, String>)
    ensures
        match set_field_input(model(*input)) {
            Ok(c) => r matches Ok(f) && f.document_id.view() == c.document_id && path_texts(f.path@) == c.path
                && model(f.value) == c.value,
            Err(m) => r matches Err(e) && e@ == m,
        },
{
    proof {
        lemma_model_parts(*input);
    }
    match input {
        JsonValue::Object(ms) => {
            let document_id = match document_id_member(ms, "document_id") {
                Ok(id) => id,
                Err(e) => return Err(e),
            };
            let path = match member(ms, "path") {
                None => return Err(crate::command::input::missing_field_pub("path")),
                Some(p) => match p {
                    JsonValue::Array(xs) => {
                        proof {
                            lemma_model_parts(*p);
                        }
                        match parse_strings(xs) {
                            Ok(v) => v,
                            Err(e) => return Err(e),
                        }
                    },
                    _ => return Err(crate::command::input::wrong_type_pub(p, "a sequence")),
                },
            };
            let value = match member(ms, "value") {
                None => return Err(crate::command::input::missing_field_pub("value")),
                Some(v) => json_clone(v),
            };
            Ok(SetFields { document_id, path, value })
        },
        _ => Err(not_object(input, "SetFieldInput")),
    }
}

fn set_field_output_json(id: &DocumentId, path: &Vec<String>) -> (v: JsonValue)
    ensures
        model(v) == set_field_output(id.view(), path_texts(path@)),
{
    let mut items: Vec<JsonValue> = Vec::new();
    let mut i: usize = 0;
    while i < path.len()
        invariant
            i <= path@.len(),
            items@.len() == i,
            forall|j: int| 0 <= j < i ==> model(#[trigger] items@[j]) == JsonModel::String(path@[j]@),
        decreases path@.len() - i,
    {
        items.push(json_string(path[i].as_str()));
        i = i + 1;
    }
    let arr = JsonValue::Array(items);
    proof {
        lemma_model_parts(arr);
        assert(crate::json::items_model(items@) =~= Seq::new(
            path_texts(path@).len(),
            |j: int| JsonModel::String(path_texts(path@)[j]),
        ));
    }
    let mut pairs: Vec<(String, JsonValue)> = Vec::new();
    pairs.push((string_of("document_id"), json_string(id.as_str())));
    pairs.push((string_of("path"), arr));
    proof {
        reveal_strlit("document_id");
        reveal_strlit("path");
        assert(members_model(pairs@) =~= seq![
            ("document_id"@, JsonModel::String(id.view())),
            ("path"@, JsonModel::Array(Seq::new(path_texts(path@).len(), |j: int| JsonModel::String(path_texts(path@)[j])))),
        ]);
    }
    json_object(pairs)
}

/// A document whose payload became `payload` (its JSON text follows the new value).
pub open spec fn with_payload(d: EnvelopeView, payload: JsonModel, payload_text: Seq<char>) -> EnvelopeView {
    EnvelopeView { payload, payload_text, ..d }
}

fn set_payload_field(document: &mut DocumentEnvelope, path: &Vec<String>, value: JsonValue) -> (r: Result<(), CommandError>)
    ensures
        match set_path(old(document).view().payload, path_texts(path@), model(value)) {
            Err(m) => r matches Err(CommandError::InvalidInput(e)) && e@ == m && final(document).view()
                == old(document).view(),
            Ok(p) => r is Ok && final(document).view() == with_payload(
                old(document).view(),
                p,
                final(document).view().payload_text,
            ),
        },
{
    proof {
        reveal(DocumentEnvelope::view);
        assert(path_texts(path@).skip(0) =~= path_texts(path@));
    }
    let r = set_json_path(&mut document.payload, path, 0, value);
    proof {
        reveal(DocumentEnvelope::view);
    }
    r
}

impl SetDocumentFieldCommand {
    /// `document.set_field`, needing `EditContent`.
    pub fn describe(&self) -> (d: CommandDescriptor)
        ensures
            d.id.view() == "document.set_field"@,
            d.required_permissions.view() == set![Permission::EditContent],
    {
        proof {
            reveal_strlit("document.set_field");
            reveal_strlit("project.document.get");
        }
        let mut props: Vec<(String, JsonValue)> = Vec::new();
        props.push((string_of("document_id"), type_schema("string")));
        let mut path_schema: Vec<(String, JsonValue)> = Vec::new();
        path_schema.push((string_of("type"), json_string("array")));
        path_schema.push((string_of("items"), type_schema("string")));
        path_schema.push((string_of("minItems"), crate::json::json_u64(1)));
        props.push((string_of("path"), json_object(path_schema)));
        props.push((string_of("value"), json_object(Vec::new())));
        let mut related: Vec<ToolId> = Vec::new();
        related.push(static_tool("project.document.get"));
        CommandDescriptor {
            id: static_tool("document.set_field"),
            title: string_of("Set document field"),
            description: string_of("Set a JSON object field using a typed path inside a transaction."),
            input_schema: object_schema(vec!["document_id", "path", "value"], props),
            output_schema: type_schema("object"),
            required_permissions: edit_content(),
            side_effects: one_string("modifies_document"),
            related_tools: related,
        }
    }

    /// The input's document, once the input is well formed.
    pub fn access(&self, input: &JsonValue) -> (r: Result<DocumentAccessPlan, CommandError>)
        ensures
            set_field_plans(*input, r),
    {
        match parse_set_field(input) {
            Ok(f) => Ok(DocumentAccessPlan::document(f.document_id)),
            Err(e) => Err(CommandError::Serialization(e)),
        }
    }

    /// Sets the field at `path` of the named document's payload.
    pub fn run(&self, input: &JsonValue, state: &mut EngineState) -> (r: Result<JsonValue, CommandError>)
        ensures
            set_field_applies(*input, old(state).documents.view(), final(state).documents.view(), r),
    {
        let f = match parse_set_field(input) {
            Ok(f) => f,
            Err(e) => return Err(CommandError::Serialization(e)),
        };
        apply_set_field(f, state)
    }
}

fn apply_set_field(f: SetFields, state: &mut EngineState) -> (r: Result<JsonValue, CommandError>)
    ensures
        if f.path@.len() == 0 {
            r matches Err(CommandError::InvalidInput(e)) && e@ == "path cannot be empty"@
                && final(state).documents.view() == old(state).documents.view()
        } else {
            match key_index(old(state).documents.view(), f.document_id.view()) {
                None => r matches Err(CommandError::Content(ContentError::DocumentNotFound(d)))
                    && d.view() == f.document_id.view() && final(state).documents.view()
                    == old(state).documents.view(),
                Some(i) => match set_path(old(state).documents.view()[i].1.payload, path_texts(f.path@), model(f.value)) {
                    Err(m) => r matches Err(CommandError::InvalidInput(e)) && e@ == m
                        && final(state).documents.view() == old(state).documents.view(),
                    Ok(p) => r matches Ok(out) && model(out) == set_field_output(f.document_id.view(), path_texts(f.path@))
                        && final(state).documents.view() == old(state).documents.view().update(
                        i,
                        (
                            f.document_id.view(),
                            with_payload(
                                old(state).documents.view()[i].1,
                                p,
                                final(state).documents.view()[i].1.payload_text,
                            ),
                        ),
                    ),
                },
            }
        },
{
    if f.path.len() == 0 {
        proof {
            reveal_strlit("path cannot be empty");
        }
        return Err(CommandError::InvalidInput(string_of("path cannot be empty")));
    }
    let out = set_field_output_json(&f.document_id, &f.path);
    let ghost before = state.documents.view();
    let mut document = match state.documents.get(&f.document_id) {
        Ok(d) => d.clone(),
        Err(e) => return Err(CommandError::Content(e)),
    };
    let ghost i = key_index(before, f.document_id.view())->Some_0;
    proof {
        crate::keyed::lemma_key_index(before, f.document_id.view());
    }
    assert(document.view() == before[i].1);
    match set_payload_field(&mut document, &f.path, f.value) {
        Ok(()) => {},
        Err(e) => return Err(e),
    }
    let ghost dv = document.view();
    match state.documents.replace(&f.document_id, document) {
        Ok(_) => {
            assert(state.documents.view() == before.update(i, (f.document_id.view(), dv)));
            assert(state.documents.view()[i].1 == dv);
            Ok(out)
        },
        Err(e) => Err(CommandError::Content(e)),
    }
}

/// The engine's document commands.
pub enum DocumentCommand {
    Create(CreateDocumentCommand),
    Delete(DeleteDocumentCommand),
    SetField(SetDocumentFieldCommand),
}

impl CommandHandler for DocumentCommand {
    open spec fn tool_id(&self) -> Seq<char> {
        match self {
            DocumentCommand::Create(_) => "document.create"@,
            DocumentCommand::Delete(_) => "document.delete"@,
            DocumentCommand::SetField(_) => "document.set_field"@,
        }
    }

    open spec fn needs(&self) -> Set<Permission> {
        set![Permission::EditContent]
    }

    open spec fn plans(&self, input: JsonValue, plan: Result<DocumentAccessPlan, CommandError>) -> bool {
        match self {
            DocumentCommand::Create(_) => create_plans(input, plan),
            DocumentCommand::Delete(_) => delete_plans(input, plan),
            DocumentCommand::SetField(_) => set_field_plans(input, plan),
        }
    }

    open spec fn checks(&self, input: JsonValue, documents: Seq<(Seq<char>, EnvelopeView)>) -> Seq<DiagnosticView> {
        match self {
            DocumentCommand::Create(_) => create_diags(input, documents),
            _ => Seq::empty(),
        }
    }

    open spec fn applies(
        &self,
        input: JsonValue,
        before: Seq<(Seq<char>, EnvelopeView)>,
        after: Seq<(Seq<char>, EnvelopeView)>,
        result: Result<JsonValue, CommandError>,
    ) -> bool {
        match self {
            DocumentCommand::Create(_) => create_applies(input, before, after, result),
            DocumentCommand::Delete(_) => delete_applies(input, before, after, result),
            DocumentCommand::SetField(_) => set_field_applies(input, before, after, result),
        }
    }

    open spec fn shaped(&self, s: SchemaNode) -> bool {
        match self {
            DocumentCommand::Create(_) => object_of_fields(
                s,
                seq![("id"@, true, ValueKind::String, None), ("type_id"@, true, ValueKind::String, None), ("display_name"@, true, ValueKind::String, None), ("schema_version"@, false, ValueKind::Integer, None), ("payload"@, false, ValueKind::Any, None)],
            ),
            DocumentCommand::Delete(_) => object_of_fields(
                s,
                seq![("document_id"@, true, ValueKind::String, None)],
            ),
            DocumentCommand::SetField(_) => object_of_fields(
                s,
                seq![("document_id"@, true, ValueKind::String, None), ("path"@, true, ValueKind::Array, Some(ValueKind::String)), ("value"@, true, ValueKind::Any, None)],
            ),
        }
    }

    fn descriptor(&self) -> CommandDescriptor {
        match self {
            DocumentCommand::Create(c) => c.describe(),
            DocumentCommand::Delete(c) => c.describe(),
            DocumentCommand::SetField(c) => c.describe(),
        }
    }

    fn document_access(&self, input: &JsonValue) -> Result<DocumentAccessPlan, CommandError> {
        match self {
            DocumentCommand::Create(c) => c.access(input),
            DocumentCommand::Delete(c) => c.access(input),
            DocumentCommand::SetField(c) => c.access(input),
        }
    }

    fn validate(&self, input: &JsonValue, state: &EngineState) -> DiagnosticBag {
        match self {
            DocumentCommand::Create(c) => c.check(input, state),
            _ => {
                let bag = DiagnosticBag::new();
                assert(bag.view() =~= Seq::<DiagnosticView>::empty());
                bag
            },
        }
    }

    fn apply(&self, input: &JsonValue, state: &mut EngineState) -> Result<JsonValue, CommandError> {
        match self {
            DocumentCommand::Create(c) => c.run(input, state),
            DocumentCommand::Delete(c) => c.run(input, state),
            DocumentCommand::SetField(c) => c.run(input, state),
        }
    }

    fn input_schema(&self) -> SchemaNode {
        match self {
            DocumentCommand::Create(_) => SchemaNode::object(
                vec![
                    FieldSchema::required("id", SchemaNode::string()),
                    FieldSchema::required("type_id", SchemaNode::string()),
                    FieldSchema::required("display_name", SchemaNode::string()),
                    FieldSchema::optional("schema_version", SchemaNode::integer()),
                    FieldSchema::optional("payload", SchemaNode::any()),
                ],
            ),
            DocumentCommand::Delete(_) => SchemaNode::object(vec![FieldSchema::required("document_id", SchemaNode::string())]),
            DocumentCommand::SetField(_) => SchemaNode::object(
                vec![
                    FieldSchema::required("document_id", SchemaNode::string()),
                    FieldSchema::required("path", SchemaNode::array(SchemaNode::string())),
                    FieldSchema::required("value", SchemaNode::any()),
                ],
            ),
        }
    }
}

/// Registers the create, delete and set-field document commands: this succeeds exactly
/// when none of their identifiers is registered, and then adds those three.
pub fn register_builtin_document_commands(registry: &mut CommandRegistry<DocumentCommand>) -> (r: Result<(), CommandError>)
    requires
        ascending(old(registry).view()),
    ensures
        ascending(final(registry).view()),
        r is Ok <==> (!old(registry).view().contains("document.create"@) && !old(registry).view().contains("document.delete"@) && !old(registry).view().contains("document.set_field"@)),
        r is Ok ==> adds(old(registry).view(), final(registry).view(), seq!["document.create"@, "document.delete"@, "document.set_field"@]),
        r is Ok ==> final(registry).entries().contains(DocumentCommand::Create(CreateDocumentCommand)),
        r is Ok ==> final(registry).entries().contains(DocumentCommand::Delete(DeleteDocumentCommand)),
        r is Ok ==> final(registry).entries().contains(DocumentCommand::SetField(SetDocumentFieldCommand)),
{
    proof {
        reveal_strlit("document.create");
        reveal_strlit("document.delete");
        reveal_strlit("document.set_field");
    }
    let ghost v0 = registry.view();
    match registry.register(DocumentCommand::Create(CreateDocumentCommand)) {
        Ok(()) => {},
        Err(e) => {
            return Err(e);
        },
    }
    let ghost v1 = registry.view();
    match registry.register(DocumentCommand::Delete(DeleteDocumentCommand)) {
        Ok(()) => {},
        Err(e) => {
            proof {
                assert("document.delete"@[9] != "document.create"@[9]);
                assert(v0.contains("document.delete"@));
            }
            return Err(e);
        },
    }
    let ghost v2 = registry.view();
    match registry.register(DocumentCommand::SetField(SetDocumentFieldCommand)) {
        Ok(()) => {},
        Err(e) => {
            proof {
                assert("document.set_field"@.len() != "document.create"@.len());
                assert("document.set_field"@.len() != "document.delete"@.len());
                assert(v1.contains("document.set_field"@));
                assert(v0.contains("document.set_field"@));
            }
            return Err(e);
        },
    }
    let ghost v3 = registry.view();
    proof {
        let ks = seq!["document.create"@, "document.delete"@, "document.set_field"@];
        assert forall|y: Seq<char>| #[trigger] registry.view().contains(y) <==> (v0.contains(y) || ks.contains(y)) by {
            if ks.contains(y) {
                let k = choose|k: int| 0 <= k < 3 && ks[k] == y;
                assert(k == 0 || k == 1 || k == 2);
            }
            if y == ks[0] || y == ks[1] || y == ks[2] {
                assert(ks.contains(y));
            }
            assert(v3.contains(y) <==> (v2.contains(y) || y == ks[2]));
            assert(v2.contains(y) <==> (v1.contains(y) || y == ks[1]));
            assert(v1.contains(y) <==> (v0.contains(y) || y == ks[0]));
        }
    }
    Ok(())
}

} // verus!
