use super::graph::{adjacency_pairs, reached, store_references, ProjectGraph};
use super::{QueryDescriptor, QueryError, QueryHandler, QueryRegistry};
use crate::access::{id_texts, DocumentAccessPlan};
use crate::command::input::{id_member, not_object, not_object_message, type_message};
use crate::content::{lemma_view_id, lemma_view_references, references_view, DocumentStore, EnvelopeView, ReferenceView};
use crate::ids::{lemma_identifier_text, DocumentId, ObjectId, ToolId};
use crate::json::{
    json_clone, json_object, json_string, json_u64, lemma_model_parts, member_get, members_model, model,
    object_model, JsonModel, JsonValue, NumberRepr,
};
use crate::keyed::{adds, ascending, key_index, lemma_flatten_all, lemma_flatten_step};
use crate::permissions::{Permission, PermissionSet};
use crate::text::{push_str, string_of};
use vstd::prelude::*;

verus! {

/// One listed document: identifier, type, name and schema version.
pub open spec fn listed(d: EnvelopeView) -> JsonModel {
    object_model(
        seq![
            ("id"@, JsonModel::String(d.id)),
            ("type_id"@, JsonModel::String(d.type_id)),
            ("display_name"@, JsonModel::String(d.display_name)),
            ("schema_version"@, JsonModel::Number(NumberRepr::PosInt(d.schema_version as u64))),
        ],
    )
}

/// Every document of a store, in store order.
pub open spec fn list_output(s: Seq<(Seq<char>, EnvelopeView)>) -> JsonModel {
    JsonModel::Array(Seq::new(s.len(), |i: int| listed(s[i].1)))
}

/// An optional identifier as JSON.
pub open spec fn optional_json(o: Option<Seq<char>>) -> JsonModel {
    match o {
        Some(t) => JsonModel::String(t),
        None => JsonModel::Null,
    }
}

/// A reference as JSON.
pub open spec fn reference_json(r: ReferenceView) -> JsonModel {
    object_model(
        seq![
            ("source_object"@, optional_json(r.source_object)),
            ("target_document"@, JsonModel::String(r.target_document)),
            ("target_object"@, optional_json(r.target_object)),
            ("kind"@, JsonModel::String(r.kind)),
        ],
    )
}

/// A document as JSON: header, references and payload.
pub open spec fn document_json(d: EnvelopeView) -> JsonModel {
    object_model(
        seq![
            (
                "header"@,
                object_model(
                    seq![
                        ("id"@, JsonModel::String(d.id)),
                        ("type_id"@, JsonModel::String(d.type_id)),
                        ("schema_version"@, JsonModel::Number(NumberRepr::PosInt(d.schema_version as u64))),
                        ("display_name"@, JsonModel::String(d.display_name)),
                    ],
                ),
            ),
            ("references"@, JsonModel::Array(Seq::new(d.references.len(), |i: int| reference_json(d.references[i])))),
            ("payload"@, d.payload),
        ],
    )
}

fn pair(key: &str, value: JsonValue) -> (p: (String, JsonValue))
    ensures
        p.0@ == key@,
        p.1 == value,
{
    (string_of(key), value)
}

fn listed_json(d: &crate::content::DocumentEnvelope) -> (v: JsonValue)
    ensures
        model(v) == listed(d.view()),
{
    proof {
        lemma_view_id(*d);
        lemma_view_references(*d);
        reveal_strlit("id");
        reveal_strlit("type_id");
        reveal_strlit("display_name");
        reveal_strlit("schema_version");
    }
    let mut pairs: Vec<(String, JsonValue)> = Vec::new();
    pairs.push(pair("id", json_string(d.header.id.as_str())));
    pairs.push(pair("type_id", json_string(d.header.type_id.as_str())));
    pairs.push(pair("display_name", json_string(d.header.display_name.as_str())));
    pairs.push(pair("schema_version", json_u64(d.header.schema_version as u64)));
    assert(members_model(pairs@) =~= seq![
        ("id"@, JsonModel::String(d.view().id)),
        ("type_id"@, JsonModel::String(d.view().type_id)),
        ("display_name"@, JsonModel::String(d.view().display_name)),
        ("schema_version"@, JsonModel::Number(NumberRepr::PosInt(d.view().schema_version as u64))),
    ]);
    json_object(pairs)
}

fn optional_id_json(o: &Option<ObjectId>) -> (v: JsonValue)
    ensures
        model(v) == optional_json(crate::content::opt_view(*o)),
{
    match o {
        Some(id) => json_string(id.as_str()),
        None => JsonValue::Null,
    }
}

fn reference_value(r: &crate::content::ContentReference) -> (v: JsonValue)
    ensures
        model(v) == reference_json(r.view()),
{
    proof {
        reveal_strlit("source_object");
        reveal_strlit("target_document");
        reveal_strlit("target_object");
        reveal_strlit("kind");
    }
    let mut pairs: Vec<(String, JsonValue)> = Vec::new();
    pairs.push(pair("source_object", optional_id_json(&r.source_object)));
    pairs.push(pair("target_document", json_string(r.target_document.as_str())));
    pairs.push(pair("target_object", optional_id_json(&r.target_object)));
    pairs.push(pair("kind", json_string(r.kind.as_str())));
    assert(members_model(pairs@) =~= seq![
        ("source_object"@, optional_json(r.view().source_object)),
        ("target_document"@, JsonModel::String(r.view().target_document)),
        ("target_object"@, optional_json(r.view().target_object)),
        ("kind"@, JsonModel::String(r.view().kind)),
    ]);
    json_object(pairs)
}

/// The document as JSON (see `document_json`).
pub fn document_value(d: &crate::content::DocumentEnvelope) -> (v: JsonValue)
    ensures
        model(v) == document_json(d.view()),
{
    proof {
        lemma_view_id(*d);
        lemma_view_references(*d);
        reveal(crate::content::DocumentEnvelope::view);
        reveal_strlit("id");
        reveal_strlit("type_id");
        reveal_strlit("display_name");
        reveal_strlit("schema_version");
        reveal_strlit("header");
        reveal_strlit("references");
        reveal_strlit("payload");
    }
    let mut header: Vec<(String, JsonValue)> = Vec::new();
    header.push(pair("id", json_string(d.header.id.as_str())));
    header.push(pair("type_id", json_string(d.header.type_id.as_str())));
    header.push(pair("schema_version", json_u64(d.header.schema_version as u64)));
    header.push(pair("display_name", json_string(d.header.display_name.as_str())));
    let ghost hm = members_model(header@);
    let h = json_object(header);
    let mut refs: Vec<JsonValue> = Vec::new();
    let mut i: usize = 0;
    while i < d.references.len()
        invariant
            i <= d.references@.len(),
            refs@.len() == i,
            forall|j: int| 0 <= j < i ==> model(#[trigger] refs@[j]) == reference_json(d.references@[j].view()),
        decreases d.references@.len() - i,
    {
        refs.push(reference_value(&d.references[i]));
        i = i + 1;
    }
    let ra = JsonValue::Array(refs);
    proof {
        lemma_model_parts(ra);
    }
    let mut pairs: Vec<(String, JsonValue)> = Vec::new();
    pairs.push(pair("header", h));
    pairs.push(pair("references", ra));
    pairs.push(pair("payload", json_clone(&d.payload)));
    assert(hm =~= seq![
        ("id"@, JsonModel::String(d.view().id)),
        ("type_id"@, JsonModel::String(d.view().type_id)),
        ("schema_version"@, JsonModel::Number(NumberRepr::PosInt(d.view().schema_version as u64))),
        ("display_name"@, JsonModel::String(d.view().display_name)),
    ]);
    assert(crate::json::items_model(refs@) =~= Seq::new(d.view().references.len(), |j: int| reference_json(d.view().references[j])));
    assert(members_model(pairs@) =~= seq![
        ("header"@, model(pairs@[0].1)),
        ("references"@, model(pairs@[1].1)),
        ("payload"@, d.view().payload),
    ]);
    json_object(pairs)
}

/// Lists every document of the store.
pub fn list_documents(store: &DocumentStore) -> (v: JsonValue)
    ensures
        model(v) == list_output(store.view()),
{
    let entries = store.iter();
    let mut out: Vec<JsonValue> = Vec::new();
    let mut i: usize = 0;
    while i < entries.len()
        invariant
            crate::content::store_view(entries@) == store.view(),
            i <= entries@.len(),
            out@.len() == i,
            forall|j: int| 0 <= j < i ==> model(#[trigger] out@[j]) == listed(store.view()[j].1),
        decreases entries@.len() - i,
    {
        out.push(listed_json(&entries[i].1));
        i = i + 1;
    }
    let v = JsonValue::Array(out);
    proof {
        lemma_model_parts(v);
        assert(crate::json::items_model(out@) =~= Seq::new(store.view().len(), |j: int| listed(store.view()[j].1)));
    }
    v
}

/// Whether a reference points at `target` (and at `object`, when one is asked for).
pub open spec fn reference_matches(r: ReferenceView, target: Seq<char>, object: Option<Seq<char>>) -> bool {
    &&& r.target_document == target
    &&& (object is None || object == r.target_object)
}

/// A found reference as JSON.
pub open spec fn found_json(source: Seq<char>, r: ReferenceView) -> JsonModel {
    object_model(
        seq![
            ("source_document"@, JsonModel::String(source)),
            ("source_object"@, optional_json(r.source_object)),
            ("kind"@, JsonModel::String(r.kind)),
            ("target_object"@, optional_json(r.target_object)),
        ],
    )
}

/// The matching references of one document, in order.
pub open spec fn matching_references(
    source: Seq<char>,
    refs: Seq<ReferenceView>,
    target: Seq<char>,
    object: Option<Seq<char>>,
) -> Seq<JsonModel>
    decreases refs.len(),
{
    if refs.len() == 0 {
        Seq::empty()
    } else {
        matching_references(source, refs.drop_last(), target, object) + if reference_matches(refs.last(), target, object) {
            seq![found_json(source, refs.last())]
        } else {
            Seq::empty()
        }
    }
}

/// Per-document matches.
pub open spec fn reference_parts(s: Seq<(Seq<char>, EnvelopeView)>, target: Seq<char>, object: Option<Seq<char>>) -> Seq<Seq<JsonModel>> {
    Seq::new(s.len(), |i: int| matching_references(s[i].0, s[i].1.references, target, object))
}

/// Every reference to `target` (and `object`), document by document in store order.
pub open spec fn find_output(s: Seq<(Seq<char>, EnvelopeView)>, target: Seq<char>, object: Option<Seq<char>>) -> JsonModel {
    JsonModel::Array(reference_parts(s, target, object).flatten())
}

/// The target document and optional object of a find-references input.
pub open spec fn reference_input(v: JsonModel) -> Result<(Seq<char>, Option<Seq<char>>), Seq<char>> {
    match v {
        JsonModel::Object(ms) => match id_member(ms, "target_document"@) {
            Err(e) => Err(e),
            Ok(t) => match member_get(ms, "target_object"@) {
                None => Ok((t, None)),
                Some(JsonModel::Null) => Ok((t, None)),
                Some(JsonModel::String(o)) => match crate::ids::identifier_result(o) {
                    Ok(()) => Ok((t, Some(o))),
                    Err(e) => Err(crate::command::input::id_error_message(e)),
                },
                Some(other) => Err(type_message(other, "a string"@)),
            },
        },
        _ => Err(not_object_message(v, "ReferenceInput"@)),
    }
}

/// The document named by a `document_id` input.
pub open spec fn document_input(v: JsonModel) -> Result<Seq<char>, Seq<char>> {
    match v {
        JsonModel::Object(ms) => id_member(ms, "document_id"@),
        _ => Err(not_object_message(v, "DocumentInput"@)),
    }
}

fn parse_document_input(input: &JsonValue) -> (r: Result<DocumentId, String>)
    ensures
        match document_input(model(*input)) {
            Ok(s) => r matches Ok(id) && id.view() == s,
            Err(m) => r matches Err(e) && e@ == m,
        },
{
    proof {
        lemma_model_parts(*input);
    }
    match input {
        JsonValue::Object(ms) => crate::command::input::document_id_member(ms, "document_id"),
        _ => Err(not_object(input, "DocumentInput")),
    }
}

#[verifier::spinoff_prover]
#[verifier::rlimit(40)]
fn parse_reference_input(input: &JsonValue) -> (r: Result<(DocumentId, Option<ObjectId>), String>)
    ensures
        match reference_input(model(*input)) {
            Ok((t, o)) => r matches Ok((id, obj)) && id.view() == t && crate::content::opt_view(obj) == o,
            Err(m) => r matches Err(e) && e@ == m,
        },
{
    proof {
        lemma_model_parts(*input);
    }
    match input {
        JsonValue::Object(ms) => {
            let target = match crate::command::input::document_id_member(ms, "target_document") {
                Ok(t) => t,
                Err(e) => return Err(e),
            };
            match crate::command::input::member(ms, "target_object") {
                None => Ok((target, None)),
                Some(v) => match v {
                    JsonValue::Null => Ok((target, None)),
                    JsonValue::String(o) => match ObjectId::new(o.as_str()) {
                        Ok(id) => Ok((target, Some(id))),
                        Err(e) => Err(crate::command::input::id_error(e)),
                    },
                    _ => Err(crate::command::input::wrong_type_pub(v, "a string")),
                },
            }
        },
        _ => Err(not_object(input, "ReferenceInput")),
    }
}

fn found_value(source: &DocumentId, r: &crate::content::ContentReference) -> (v: JsonValue)
    ensures
        model(v) == found_json(source.view(), r.view()),
{
    proof {
        reveal_strlit("source_document");
        reveal_strlit("source_object");
        reveal_strlit("kind");
        reveal_strlit("target_object");
    }
    let mut pairs: Vec<(String, JsonValue)> = Vec::new();
    pairs.push(pair("source_document", json_string(source.as_str())));
    pairs.push(pair("source_object", optional_id_json(&r.source_object)));
    pairs.push(pair("kind", json_string(r.kind.as_str())));
    pairs.push(pair("target_object", optional_id_json(&r.target_object)));
    assert(members_model(pairs@) =~= seq![
        ("source_document"@, JsonModel::String(source.view())),
        ("source_object"@, optional_json(r.view().source_object)),
        ("kind"@, JsonModel::String(r.view().kind)),
        ("target_object"@, optional_json(r.view().target_object)),
    ]);
    json_object(pairs)
}

fn same_object(a: &Option<ObjectId>, b: &Option<ObjectId>) -> (r: bool)
    ensures
        r == (crate::content::opt_view(*a) == crate::content::opt_view(*b)),
{
    match (a, b) {
        (Some(x), Some(y)) => x.same(y),
        (None, None) => true,
        _ => false,
    }
}

/// Every reference in `store` to `target` (and `object`, when given).
pub fn find_references(store: &DocumentStore, target: &DocumentId, object: &Option<ObjectId>) -> (v: JsonValue)
    ensures
        model(v) == find_output(store.view(), target.view(), crate::content::opt_view(*object)),
{
    let ghost s = store.view();
    let ghost o = crate::content::opt_view(*object);
    let ghost parts = reference_parts(s, target.view(), o);
    let entries = store.iter();
    let mut out: Vec<JsonValue> = Vec::new();
    let mut i: usize = 0;
    while i < entries.len()
        invariant
            crate::content::store_view(entries@) == s,
            o == crate::content::opt_view(*object),
            parts == reference_parts(s, target.view(), o),
            i <= entries@.len(),
            crate::json::items_model(out@) == parts.take(i as int).flatten(),
        decreases entries@.len() - i,
    {
        proof {
            lemma_flatten_step(parts, i as int);
        }
        let source = &entries[i].0;
        let document = &entries[i].1;
        proof {
            lemma_view_references(*document);
        }
        let ghost refs = references_view(document.references@);
        let ghost start = crate::json::items_model(out@);
        let mut j: usize = 0;
        while j < document.references.len()
            invariant
                j <= document.references@.len(),
                o == crate::content::opt_view(*object),
                refs == references_view(document.references@),
                crate::json::items_model(out@) == start + matching_references(source.view(), refs.take(j as int), target.view(), o),
            decreases document.references@.len() - j,
        {
            let r = &document.references[j];
            let ghost before = crate::json::items_model(out@);
            assert(refs.take(j as int + 1).drop_last() =~= refs.take(j as int));
            assert(refs.take(j as int + 1).last() == r.view());
            let ghost prev = matching_references(source.view(), refs.take(j as int), target.view(), o);
            let ghost next = matching_references(source.view(), refs.take(j as int + 1), target.view(), o);
            if r.target_document.same(target) && (object.is_none() || same_object(object, &r.target_object)) {
                out.push(found_value(source, r));
                assert(reference_matches(r.view(), target.view(), o));
                assert(next == prev + seq![found_json(source.view(), r.view())]);
                assert(crate::json::items_model(out@) =~= before.push(found_json(source.view(), r.view())));
                assert(crate::json::items_model(out@) =~= start + next);
            } else {
                assert(!reference_matches(r.view(), target.view(), o));
                assert(next =~= prev);
                assert(crate::json::items_model(out@) =~= before);
            }
            j = j + 1;
        }
        proof {
            assert(refs.take(refs.len() as int) =~= refs);
            assert(s[i as int].0 == source.view());
            assert(s[i as int].1.references == refs);
        }
        i = i + 1;
    }
    proof {
        lemma_flatten_all(parts);
    }
    let v = JsonValue::Array(out);
    proof {
        lemma_model_parts(v);
    }
    v
}

/// The identifiers as a JSON array of texts.
pub open spec fn ids_json(ids: Seq<Seq<char>>) -> JsonModel {
    JsonModel::Array(Seq::new(ids.len(), |i: int| JsonModel::String(ids[i])))
}

fn ids_value(ids: &Vec<DocumentId>) -> (v: JsonValue)
    ensures
        model(v) == ids_json(id_texts(ids@)),
{
    let mut out: Vec<JsonValue> = Vec::new();
    let mut i: usize = 0;
    while i < ids.len()
        invariant
            i <= ids@.len(),
            out@.len() == i,
            forall|j: int| 0 <= j < i ==> model(#[trigger] out@[j]) == JsonModel::String(ids@[j].view()),
        decreases ids@.len() - i,
    {
        out.push(json_string(ids[i].as_str()));
        i = i + 1;
    }
    let v = JsonValue::Array(out);
    proof {
        lemma_model_parts(v);
        assert(crate::json::items_model(out@) =~= Seq::new(id_texts(ids@).len(), |j: int| JsonModel::String(id_texts(ids@)[j])));
    }
    v
}

fn static_tool(name: &'static str) -> (id: ToolId)
    requires
        name@.len() > 0,
        crate::ids::all_identifier_chars(name@),
    ensures
        id.view() == name@,
{
    proof {
        lemma_identifier_text(name@);
    }
    ToolId::from_static(name)
}

fn read_permission() -> (p: PermissionSet)
    ensures
        p.view() == set![Permission::Read],
{
    let mut v: Vec<Permission> = Vec::new();
    v.push(Permission::Read);
    let p = PermissionSet::new(v);
    assert(seq![Permission::Read].to_set() =~= set![Permission::Read]) by {
        assert(seq![Permission::Read][0] == Permission::Read);
    }
    p
}

fn type_schema(t: &str) -> JsonValue {
    let mut pairs: Vec<(String, JsonValue)> = Vec::new();
    pairs.push(pair("type", json_string(t)));
    json_object(pairs)
}

fn id_input_schema(field: &str) -> JsonValue {
    let mut props: Vec<(String, JsonValue)> = Vec::new();
    props.push(pair(field, type_schema("string")));
    let mut required: Vec<JsonValue> = Vec::new();
    required.push(json_string(field));
    let mut pairs: Vec<(String, JsonValue)> = Vec::new();
    pairs.push(pair("type", json_string("object")));
    pairs.push(pair("required", JsonValue::Array(required)));
    pairs.push(pair("properties", json_object(props)));
    json_object(pairs)
}

/// Lists every loaded document.
pub struct ListDocumentsQuery;

/// Returns one whole document.
pub struct GetDocumentQuery;

/// Finds the references to a document (or one of its objects).
pub struct FindReferencesQuery;

/// Finds every document that depends on a document.
pub struct ImpactQuery;

/// `document not found: <id>`.
pub open spec fn not_found_message(id: Seq<char>) -> Seq<char> {
    "document not found: "@ + id
}

impl ListDocumentsQuery {
    /// `project.documents.list`, needing `Read`.
    pub fn describe(&self) -> (d: QueryDescriptor)
        ensures
            d.id.view() == "project.documents.list"@,
            d.required_permissions.view() == set![Permission::Read],
    {
        proof {
            reveal_strlit("project.documents.list");
            reveal_strlit("project.document.get");
        }
        let mut related: Vec<ToolId> = Vec::new();
        related.push(static_tool("project.document.get"));
        QueryDescriptor {
            id: static_tool("project.documents.list"),
            title: string_of("List documents"),
            description: string_of("List all loaded authoring documents."),
            input_schema: type_schema("object"),
            output_schema: type_schema("array"),
            required_permissions: read_permission(),
            related_tools: related,
        }
    }

    /// Every document, in store order.
    pub fn run(&self, input: &JsonValue, store: &DocumentStore) -> (r: Result<JsonValue, QueryError>)
        ensures
            list_answers(model(*input), store.view(), r),
    {
        Ok(list_documents(store))
    }
}

impl GetDocumentQuery {
    /// `project.document.get`, needing `Read`.
    pub fn describe(&self) -> (d: QueryDescriptor)
        ensures
            d.id.view() == "project.document.get"@,
            d.required_permissions.view() == set![Permission::Read],
    {
        proof {
            reveal_strlit("project.document.get");
            reveal_strlit("project.references.find");
        }
        let mut related: Vec<ToolId> = Vec::new();
        related.push(static_tool("project.references.find"));
        QueryDescriptor {
            id: static_tool("project.document.get"),
            title: string_of("Get document"),
            description: string_of("Return one complete authoring document."),
            input_schema: id_input_schema("document_id"),
            output_schema: type_schema("object"),
            required_permissions: read_permission(),
            related_tools: related,
        }
    }

    /// The query reads the one document it names.
    pub fn access(&self, input: &JsonValue) -> (r: Result<DocumentAccessPlan, QueryError>)
        ensures
            get_plans(model(*input), r),
    {
        match parse_document_input(input) {
            Ok(id) => Ok(DocumentAccessPlan::document(id)),
            Err(e) => Err(QueryError::Serialization(e)),
        }
    }

    /// The named document.
    pub fn run(&self, input: &JsonValue, store: &DocumentStore) -> (r: Result<JsonValue, QueryError>)
        ensures
            get_answers(model(*input), store.view(), r),
    {
        let id = match parse_document_input(input) {
            Ok(id) => id,
            Err(e) => return Err(QueryError::Serialization(e)),
        };
        match store.get(&id) {
            Ok(d) => Ok(document_value(d)),
            Err(_) => {
                let mut m = string_of("document not found: ");
                push_str(&mut m, id.as_str());
                Err(QueryError::Failed(m))
            },
        }
    }
}

impl FindReferencesQuery {
    /// `project.references.find`, needing `Read`.
    pub fn describe(&self) -> (d: QueryDescriptor)
        ensures
            d.id.view() == "project.references.find"@,
            d.required_permissions.view() == set![Permission::Read],
    {
        proof {
            reveal_strlit("project.references.find");
            reveal_strlit("project.impact.analyze");
        }
        let mut related: Vec<ToolId> = Vec::new();
        related.push(static_tool("project.impact.analyze"));
        let mut props: Vec<(String, JsonValue)> = Vec::new();
        props.push(pair("target_document", type_schema("string")));
        let mut either: Vec<JsonValue> = Vec::new();
        either.push(json_string("string"));
        either.push(json_string("null"));
        let mut object_schema: Vec<(String, JsonValue)> = Vec::new();
        object_schema.push(pair("type", JsonValue::Array(either)));
        props.push(pair("target_object", json_object(object_schema)));
        let mut required: Vec<JsonValue> = Vec::new();
        required.push(json_string("target_document"));
        let mut pairs: Vec<(String, JsonValue)> = Vec::new();
        pairs.push(pair("type", json_string("object")));
        pairs.push(pair("required", JsonValue::Array(required)));
        pairs.push(pair("properties", json_object(props)));
        QueryDescriptor {
            id: static_tool("project.references.find"),
            title: string_of("Find references"),
            description: string_of("Find semantic references without scanning source text."),
            input_schema: json_object(pairs),
            output_schema: type_schema("array"),
            required_permissions: read_permission(),
            related_tools: related,
        }
    }

    /// The references to the input's target.
    pub fn run(&self, input: &JsonValue, store: &DocumentStore) -> (r: Result<JsonValue, QueryError>)
        ensures
            find_answers(model(*input), store.view(), r),
    {
        match parse_reference_input(input) {
            Ok((target, object)) => Ok(find_references(store, &target, &object)),
            Err(e) => Err(QueryError::Serialization(e)),
        }
    }
}

impl ImpactQuery {
    /// `project.impact.analyze`, needing `Read`.
    pub fn describe(&self) -> (d: QueryDescriptor)
        ensures
            d.id.view() == "project.impact.analyze"@,
            d.required_permissions.view() == set![Permission::Read],
    {
        proof {
            reveal_strlit("project.impact.analyze");
            reveal_strlit("project.references.find");
        }
        let mut related: Vec<ToolId> = Vec::new();
        related.push(static_tool("project.references.find"));
        QueryDescriptor {
            id: static_tool("project.impact.analyze"),
            title: string_of("Analyze impact"),
            description: string_of("Return all transitively dependent documents."),
            input_schema: id_input_schema("document_id"),
            output_schema: type_schema("array"),
            required_permissions: read_permission(),
            related_tools: related,
        }
    }

    /// Every document that references the input's document directly or through others, in
    /// ascending order.
    pub fn run(&self, input: &JsonValue, store: &DocumentStore) -> (r: Result<JsonValue, QueryError>)
        ensures
            impact_answers(model(*input), store.view(), r),
    {
        let id = match parse_document_input(input) {
            Ok(id) => id,
            Err(e) => return Err(QueryError::Serialization(e)),
        };
        let graph = ProjectGraph::build(store);
        let dependents = graph.impact(&id);
        let v = ids_value(&dependents);
        assert(model(v) == ids_json(id_texts(dependents@)));
        Ok(v)
    }
}

pub open spec fn list_answers(input: JsonModel, store: Seq<(Seq<char>, EnvelopeView)>, r: Result<JsonValue, QueryError>) -> bool {
    r matches Ok(v) && model(v) == list_output(store)
}

pub open spec fn get_answers(input: JsonModel, store: Seq<(Seq<char>, EnvelopeView)>, r: Result<JsonValue, QueryError>) -> bool {
    match document_input(input) {
        Err(m) => r matches Err(QueryError::Serialization(e)) && e@ == m,
        Ok(id) => match key_index(store, id) {
            None => r matches Err(QueryError::Failed(e)) && e@ == not_found_message(id),
            Some(i) => r matches Ok(v) && model(v) == document_json(store[i].1),
        },
    }
}

pub open spec fn get_plans(input: JsonModel, r: Result<DocumentAccessPlan, QueryError>) -> bool {
    match document_input(input) {
        Err(m) => r matches Err(QueryError::Serialization(e)) && e@ == m,
        Ok(id) => r matches Ok(p) && id_texts(p.required@) == seq![id] && !p.scans_project,
    }
}

pub open spec fn find_answers(input: JsonModel, store: Seq<(Seq<char>, EnvelopeView)>, r: Result<JsonValue, QueryError>) -> bool {
    match reference_input(input) {
        Err(m) => r matches Err(QueryError::Serialization(e)) && e@ == m,
        Ok((t, o)) => r matches Ok(v) && model(v) == find_output(store, t, o),
    }
}

pub open spec fn impact_answers(input: JsonModel, store: Seq<(Seq<char>, EnvelopeView)>, r: Result<JsonValue, QueryError>) -> bool {
    match document_input(input) {
        Err(m) => r matches Err(QueryError::Serialization(e)) && e@ == m,
        Ok(id) => r matches Ok(v) && exists|ids: Seq<Seq<char>>| {
            &&& model(v) == ids_json(ids)
            &&& ascending(ids)
            &&& ids.to_set() == Set::new(|x: Seq<char>| reached(super::graph::reversed(store_references(store)), id, x))
        },
    }
}

/// The engine's project queries.
pub enum BuiltinQuery {
    List(ListDocumentsQuery),
    Get(GetDocumentQuery),
    FindReferences(FindReferencesQuery),
    Impact(ImpactQuery),
}

impl QueryHandler for BuiltinQuery {
    open spec fn tool_id(&self) -> Seq<char> {
        match self {
            BuiltinQuery::List(_) => "project.documents.list"@,
            BuiltinQuery::Get(_) => "project.document.get"@,
            BuiltinQuery::FindReferences(_) => "project.references.find"@,
            BuiltinQuery::Impact(_) => "project.impact.analyze"@,
        }
    }

    open spec fn needs(&self) -> Set<Permission> {
        set![Permission::Read]
    }

    /// A lookup declares its document; the other queries scan the project.
    open spec fn plans(&self, input: JsonModel, plan: Result<DocumentAccessPlan, QueryError>) -> bool {
        match self {
            BuiltinQuery::Get(_) => get_plans(input, plan),
            _ => plan matches Ok(p) && p.required@.len() == 0 && p.scans_project,
        }
    }

    open spec fn answers(&self, input: JsonModel, store: Seq<(Seq<char>, EnvelopeView)>, result: Result<JsonValue, QueryError>) -> bool {
        match self {
            BuiltinQuery::List(_) => list_answers(input, store, result),
            BuiltinQuery::Get(_) => get_answers(input, store, result),
            BuiltinQuery::FindReferences(_) => find_answers(input, store, result),
            BuiltinQuery::Impact(_) => impact_answers(input, store, result),
        }
    }

    fn descriptor(&self) -> QueryDescriptor {
        match self {
            BuiltinQuery::List(q) => q.describe(),
            BuiltinQuery::Get(q) => q.describe(),
            BuiltinQuery::FindReferences(q) => q.describe(),
            BuiltinQuery::Impact(q) => q.describe(),
        }
    }

    fn document_access(&self, input: &JsonValue) -> Result<DocumentAccessPlan, QueryError> {
        match self {
            BuiltinQuery::Get(q) => q.access(input),
            _ => Ok(DocumentAccessPlan::project()),
        }
    }

    fn execute(&self, input: &JsonValue, store: &DocumentStore) -> Result<JsonValue, QueryError> {
        match self {
            BuiltinQuery::List(q) => q.run(input, store),
            BuiltinQuery::Get(q) => q.run(input, store),
            BuiltinQuery::FindReferences(q) => q.run(input, store),
            BuiltinQuery::Impact(q) => q.run(input, store),
        }
    }
}

/// Registers the list, get, find-references and impact queries: this succeeds exactly
/// when none of their identifiers is registered, and then adds those four.
pub fn register_builtin_queries(registry: &mut QueryRegistry<BuiltinQuery>) -> (r: Result<(), QueryError>)
    requires
        ascending(old(registry).view()),
    ensures
        ascending(final(registry).view()),
        r is Ok <==> (!old(registry).view().contains("project.documents.list"@) && !old(registry).view().contains("project.document.get"@) && !old(registry).view().contains("project.references.find"@) && !old(registry).view().contains("project.impact.analyze"@)),
        r is Ok ==> adds(old(registry).view(), final(registry).view(), seq!["project.documents.list"@, "project.document.get"@, "project.references.find"@, "project.impact.analyze"@]),
        r is Ok ==> final(registry).entries().contains(BuiltinQuery::List(ListDocumentsQuery)),
        r is Ok ==> final(registry).entries().contains(BuiltinQuery::Get(GetDocumentQuery)),
        r is Ok ==> final(registry).entries().contains(BuiltinQuery::FindReferences(FindReferencesQuery)),
        r is Ok ==> final(registry).entries().contains(BuiltinQuery::Impact(ImpactQuery)),
{
    proof {
        reveal_strlit("project.documents.list");
        reveal_strlit("project.document.get");
        reveal_strlit("project.references.find");
        reveal_strlit("project.impact.analyze");
    }
    let ghost v0 = registry.view();
    match registry.register(BuiltinQuery::List(ListDocumentsQuery)) {
        Ok(()) => {},
        Err(e) => {
            return Err(e);
        },
    }
    let ghost v1 = registry.view();
    match registry.register(BuiltinQuery::Get(GetDocumentQuery)) {
        Ok(()) => {},
        Err(e) => {
            proof {
                assert("project.document.get"@.len() != "project.documents.list"@.len());
                assert(v0.contains("project.document.get"@));
            }
            return Err(e);
        },
    }
    let ghost v2 = registry.view();
    match registry.register(BuiltinQuery::FindReferences(FindReferencesQuery)) {
        Ok(()) => {},
        Err(e) => {
            proof {
                assert("project.references.find"@.len() != "project.documents.list"@.len());
                assert("project.references.find"@.len() != "project.document.get"@.len());
                assert(v1.contains("project.references.find"@));
                assert(v0.contains("project.references.find"@));
            }
            return Err(e);
        },
    }
    let ghost v3 = registry.view();
    match registry.register(BuiltinQuery::Impact(ImpactQuery)) {
        Ok(()) => {},
        Err(e) => {
            proof {
                assert("project.impact.analyze"@[8] != "project.documents.list"@[8]);
                assert("project.impact.analyze"@.len() != "project.document.get"@.len());
                assert("project.impact.analyze"@.len() != "project.references.find"@.len());
                assert(v2.contains("project.impact.analyze"@));
                assert(v1.contains("project.impact.analyze"@));
                assert(v0.contains("project.impact.analyze"@));
            }
            return Err(e);
        },
    }
    let ghost v4 = registry.view();
    proof {
        let ks = seq!["project.documents.list"@, "project.document.get"@, "project.references.find"@, "project.impact.analyze"@];
        assert forall|y: Seq<char>| #[trigger] registry.view().contains(y) <==> (v0.contains(y) || ks.contains(y)) by {
            if ks.contains(y) {
                let k = choose|k: int| 0 <= k < 4 && ks[k] == y;
                assert(k == 0 || k == 1 || k == 2 || k == 3);
            }
            if y == ks[0] || y == ks[1] || y == ks[2] || y == ks[3] {
                assert(ks.contains(y));
            }
            assert(v4.contains(y) <==> (v3.contains(y) || y == ks[3]));
            assert(v3.contains(y) <==> (v2.contains(y) || y == ks[2]));
            assert(v2.contains(y) <==> (v1.contains(y) || y == ks[1]));
            assert(v1.contains(y) <==> (v0.contains(y) || y == ks[0]));
        }
    }
    Ok(())
}

/// Project-level query diagnostics: none so far.
pub fn query_diagnostics(store: &DocumentStore) -> (bag: crate::diagnostics::DiagnosticBag)
    ensures
        bag.view().len() == 0,
{
    crate::diagnostics::DiagnosticBag::new()
}

} // verus!
