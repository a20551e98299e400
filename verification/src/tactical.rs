use crate::command::builtin::{
    edit_content, object_schema, one_string, static_tool, type_schema, CreateDocumentCommand, DeleteDocumentCommand,
    DocumentCommand, SetDocumentFieldCommand,
};
use crate::query::builtin::{BuiltinQuery, FindReferencesQuery, GetDocumentQuery, ImpactQuery, ListDocumentsQuery};
use crate::command::input::{
    document_id_member, id_member, member, not_object, not_object_message, text_member,
    text_member_of,
};
use crate::command::{CommandDescriptor, CommandError, CommandHandler, CommandRegistry, EngineState};
use crate::access::{id_texts, DocumentAccessPlan};
use crate::content::{ContentError, DocumentStore, EnvelopeView};
use crate::diagnostics::{any_error, document_diagnostic, plain, Diagnostic, DiagnosticBag, DiagnosticView, Severity};
use crate::ids::{DocumentId, ObjectId, ToolId};
use crate::json::{json_clone, json_string, lemma_model_parts, member_get, members_model, model, JsonModel, JsonValue};
use crate::keyed::{adds, ascending, key_index, key_slot};
use crate::permissions::{Permission, PermissionSet};
use crate::query::{QueryDescriptor, QueryError, QueryHandler, QueryRegistry};
use crate::schema::builder::object_of_fields;
use crate::schema::{FieldSchema, SchemaNode, ValueKind};
use crate::diagnostics_json::bag_model;
use crate::stage_json::{space_json, space_model, count_model};
use crate::stage::{
    stage_diags, validate_stage, CoordinateSpace, HexCoord, StageConnection, StageDocument,
    StageObject, StageObjectKind, STAGE_DOCUMENT_TYPE,
};
use crate::stage_json::{
    cloned_list, connections_view, entry, i32_field, i32_member, list_field, list_member,
    object_id_member, object_of, objects_view, stage_decode, stage_model, stage_references,
    text_model, texts_view, wrong_stage_type_message, ConnectionView, KindView, ObjectView,
    StageView,
};
use crate::text::{push_str, string_of};
use vstd::prelude::*;

verus! {

// ---------------------------------------------------------------------------------------
// Reading and storing Stages in the engine state.
// ---------------------------------------------------------------------------------------

/// Why a stored Stage could not be read.
pub enum ReadFailure {
    NotFound,
    WrongType(Seq<char>),
    Undecodable(Seq<char>),
}

/// The Stage stored under `id`, or why it cannot be read.
pub open spec fn stage_in(store: Seq<(Seq<char>, EnvelopeView)>, id: Seq<char>) -> Result<StageView, ReadFailure> {
    match key_index(store, id) {
        None => Err(ReadFailure::NotFound),
        Some(i) => if store[i].1.type_id != STAGE_DOCUMENT_TYPE@ {
            Err(ReadFailure::WrongType(store[i].1.type_id))
        } else {
            match stage_decode(store[i].1.payload) {
                Ok(sv) => Ok(sv),
                Err(m) => Err(ReadFailure::Undecodable(m)),
            }
        },
    }
}

/// The command error that reports a read failure.
pub open spec fn read_failed(f: ReadFailure, id: Seq<char>, e: CommandError) -> bool {
    match f {
        ReadFailure::NotFound => e matches CommandError::Content(ContentError::DocumentNotFound(x)) && x.view() == id,
        ReadFailure::WrongType(t) => e matches CommandError::Content(ContentError::InvalidDocument(m)) && m@
            == wrong_stage_type_message(t),
        ReadFailure::Undecodable(m0) => e matches CommandError::Content(ContentError::Serialization(m)) && m@ == m0,
    }
}

/// `d` is the stored envelope of Stage `sv` (its JSON text aside).
pub open spec fn stage_envelope(d: EnvelopeView, sv: StageView) -> bool {
    &&& d.id == sv.id
    &&& d.type_id == STAGE_DOCUMENT_TYPE@
    &&& d.schema_version == 1
    &&& d.display_name == sv.name
    &&& d.references == stage_references(sv)
    &&& d.payload == stage_model(sv)
}

/// The store after storing `d` under `key`, replacing what was there.
pub open spec fn upserted(
    store: Seq<(Seq<char>, EnvelopeView)>,
    key: Seq<char>,
    d: EnvelopeView,
) -> Seq<(Seq<char>, EnvelopeView)> {
    match key_index(store, key) {
        Some(i) => store.update(i, (key, d)),
        None => store.insert(key_slot(store, key), (key, d)),
    }
}

/// `after` is `before` with Stage `sv` stored under its identifier.
pub open spec fn stage_stored(
    before: Seq<(Seq<char>, EnvelopeView)>,
    after: Seq<(Seq<char>, EnvelopeView)>,
    sv: StageView,
) -> bool {
    exists|d: EnvelopeView| #[trigger] stage_envelope(d, sv) && after == upserted(before, sv.id, d)
}

fn read_stage(store: &DocumentStore, id: &DocumentId) -> (r: Result<StageDocument, CommandError>)
    ensures
        match stage_in(store.view(), id.view()) {
            Ok(sv) => r matches Ok(s) && s.view() == sv,
            Err(f) => r matches Err(e) && read_failed(f, id.view(), e),
        },
{
    let d = match store.get(id) {
        Ok(d) => d,
        Err(e) => {
            return Err(CommandError::Content(e));
        },
    };
    match StageDocument::from_envelope(d) {
        Ok(s) => Ok(s),
        Err(e) => Err(CommandError::Content(e)),
    }
}

fn store_stage(state: &mut EngineState, stage: &StageDocument)
    ensures
        stage_stored(old(state).documents.view(), final(state).documents.view(), stage.view()),
{
    match stage.to_envelope() {
        Ok(d) => {
            let ghost dv = d.view();
            let ghost before = state.documents.view();
            proof {
                crate::content::lemma_view_id(d);
            }
            state.documents.upsert(d);
            assert(stage_envelope(dv, stage.view()) && state.documents.view() == upserted(before, stage.view().id, dv));
        },
        Err(_) => {
            assert(false);
        },
    }
}

/// `{"stage_id": id}`.
pub open spec fn stage_output(id: Seq<char>) -> JsonModel {
    JsonModel::Object(seq![("stage_id"@, text_model(id))])
}

/// `{"object_id": object, "stage_id": stage}`.
pub open spec fn object_output(stage: Seq<char>, object: Seq<char>) -> JsonModel {
    JsonModel::Object(seq![("object_id"@, text_model(object)), ("stage_id"@, text_model(stage))])
}

fn stage_output_json(id: &DocumentId) -> (v: JsonValue)
    ensures
        model(v) == stage_output(id.view()),
{
    let mut ms: Vec<(String, JsonValue)> = Vec::new();
    ms.push(entry("stage_id", json_string(id.as_str())));
    let v = object_of(ms);
    assert(members_model(ms@) =~= stage_output(id.view())->Object_0);
    v
}

fn object_output_json(stage: &DocumentId, object: &ObjectId) -> (v: JsonValue)
    ensures
        model(v) == object_output(stage.view(), object.view()),
{
    let mut ms: Vec<(String, JsonValue)> = Vec::new();
    ms.push(entry("object_id", json_string(object.as_str())));
    ms.push(entry("stage_id", json_string(stage.as_str())));
    let v = object_of(ms);
    assert(members_model(ms@) =~= object_output(stage.view(), object.view())->Object_0);
    v
}

fn empty_object() -> (v: JsonValue)
    ensures
        model(v) == JsonModel::Object(Seq::empty()),
{
    let ms: Vec<(String, JsonValue)> = Vec::new();
    let v = object_of(ms);
    assert(members_model(ms@) =~= Seq::<(Seq<char>, JsonModel)>::empty());
    v
}

// ---------------------------------------------------------------------------------------
// Placing objects.
// ---------------------------------------------------------------------------------------

/// Some object of the Stage already has identifier `id`.
pub open spec fn object_taken(sv: StageView, id: Seq<char>) -> bool {
    exists|k: int| 0 <= k < sv.objects.len() && (#[trigger] sv.objects[k]).id == id
}

/// The Stage with `o` appended to its objects.
pub open spec fn with_object(sv: StageView, o: ObjectView) -> StageView {
    StageView {
        id: sv.id,
        name: sv.name,
        coordinate_space: sv.coordinate_space,
        layers: sv.layers,
        objects: sv.objects.push(o),
        connections: sv.connections,
    }
}

/// What placing object `o` into Stage `stage_id` does: the Stage must be readable and
/// must not hold an object with the same identifier, and the Stage with the object must
/// validate without errors; then it is stored and the output names Stage and object.
/// Any refusal leaves the store unchanged.
pub open spec fn placement(
    before: Seq<(Seq<char>, EnvelopeView)>,
    after: Seq<(Seq<char>, EnvelopeView)>,
    stage_id: Seq<char>,
    o: ObjectView,
    r: Result<JsonValue, CommandError>,
) -> bool {
    match stage_in(before, stage_id) {
        Err(f) => r matches Err(e) && read_failed(f, stage_id, e) && after == before,
        Ok(sv) => if object_taken(sv, o.id) {
            r matches Err(CommandError::InvalidInput(m)) && m@ == "object id already exists: "@ + o.id
                && after == before
        } else if any_error(stage_diags(with_object(sv, o))) {
            r matches Err(CommandError::ValidationFailed(b)) && b.view() == stage_diags(with_object(sv, o))
                && after == before
        } else {
            r matches Ok(out) && model(out) == object_output(stage_id, o.id) && stage_stored(
                before,
                after,
                with_object(sv, o),
            )
        },
    }
}

fn object_used(stage: &StageDocument, id: &ObjectId) -> (r: bool)
    ensures
        r == object_taken(stage.view(), id.view()),
{
    let ghost sv = stage.view();
    let mut k: usize = 0;
    while k < stage.objects.len()
        invariant
            sv == stage.view(),
            k <= stage.objects@.len(),
            forall|j: int| 0 <= j < k ==> (#[trigger] sv.objects[j]).id != id.view(),
        decreases stage.objects@.len() - k,
    {
        if stage.objects[k].id.same(id) {
            assert(sv.objects[k as int].id == id.view());
            return true;
        }
        k = k + 1;
    }
    false
}

fn place_object(state: &mut EngineState, stage_id: &DocumentId, object: StageObject) -> (r: Result<JsonValue, CommandError>)
    ensures
        placement(old(state).documents.view(), final(state).documents.view(), stage_id.view(), object.view(), r),
{
    let mut stage = read_stage(&state.documents, stage_id)?;
    let ghost sv = stage.view();
    if object_used(&stage, &object.id) {
        let mut m = string_of("object id already exists: ");
        push_str(&mut m, object.id.as_str());
        return Err(CommandError::InvalidInput(m));
    }
    let out = object_output_json(stage_id, &object.id);
    let ghost ov = object.view();
    let ghost before_objects = stage.objects@;
    stage.objects.push(object);
    assert(objects_view(stage.objects@) =~= objects_view(before_objects).push(ov));
    assert(stage.view() == with_object(sv, ov));
    let diagnostics = validate_stage(&stage);
    if diagnostics.has_errors() {
        return Err(CommandError::ValidationFailed(diagnostics));
    }
    store_stage(state, &stage);
    Ok(out)
}

fn position_of(ms: &Vec<(String, JsonValue)>) -> (r: Result<HexCoord, String>)
    ensures
        match i32_field(members_model(ms@), "q"@) {
            Err(m) => r matches Err(e) && e@ == m,
            Ok(q) => match i32_field(members_model(ms@), "r"@) {
                Err(m) => r matches Err(e) && e@ == m,
                Ok(rr) => r == Ok::<HexCoord, String>(HexCoord { q, r: rr }),
            },
        },
{
    let q = i32_member(ms, "q")?;
    let r = i32_member(ms, "r")?;
    Ok(HexCoord { q, r })
}

// ---------------------------------------------------------------------------------------
// stage.create
// ---------------------------------------------------------------------------------------

/// The fields of a Stage-creation input.
pub struct CreateStageIn {
    pub id: Seq<char>,
    pub name: Seq<char>,
    pub width: u32,
    pub height: u32,
}

/// A required `u32` member (see `crate::stage_json::u32_field`).
pub open spec fn u32_member_of(ms: Seq<(Seq<char>, JsonModel)>, name: Seq<char>) -> Result<u32, Seq<char>> {
    crate::stage_json::u32_field(ms, name)
}

/// What a Stage-creation input holds, or why it is refused.
pub open spec fn create_stage_input(v: JsonModel) -> Result<CreateStageIn, Seq<char>> {
    match v {
        JsonModel::Object(ms) => match id_member(ms, "id"@) {
            Err(e) => Err(e),
            Ok(id) => match text_member(ms, "name"@) {
                Err(e) => Err(e),
                Ok(name) => match u32_member_of(ms, "width"@) {
                    Err(e) => Err(e),
                    Ok(width) => match u32_member_of(ms, "height"@) {
                        Err(e) => Err(e),
                        Ok(height) => Ok(CreateStageIn { id, name, width, height }),
                    },
                },
            },
        },
        _ => Err(not_object_message(v, "CreateStageInput"@)),
    }
}

/// The new hex Stage a creation input describes: one `gameplay` layer, no objects, no
/// connections.
pub open spec fn new_stage(c: CreateStageIn) -> StageView {
    StageView {
        id: c.id,
        name: c.name,
        coordinate_space: CoordinateSpace::HexAxial { width: c.width, height: c.height },
        layers: seq!["gameplay"@],
        objects: Seq::empty(),
        connections: Seq::empty(),
    }
}

/// What checking a Stage-creation input reports: a malformed input, or a zero dimension
/// and an identifier already in use.
pub open spec fn create_stage_diags(v: JsonModel, store: Seq<(Seq<char>, EnvelopeView)>) -> Seq<DiagnosticView> {
    match create_stage_input(v) {
        Err(m) => seq![plain("COMMAND_INPUT_INVALID"@, Severity::Error, m)],
        Ok(c) => (if c.width == 0 || c.height == 0 {
            seq![plain("STAGE_DIMENSIONS_INVALID"@, Severity::Error, "Stage dimensions must be greater than zero"@)]
        } else {
            Seq::empty()
        }) + (if key_index(store, c.id) is Some {
            seq![document_diagnostic("DOCUMENT_ALREADY_EXISTS"@, Severity::Error, "Stage id already exists"@, c.id)]
        } else {
            Seq::empty()
        }),
    }
}

struct CreateStageFields {
    id: DocumentId,
    name: String,
    width: u32,
    height: u32,
}

fn parse_create_stage(input: &JsonValue) -> (r: Result<CreateStageFields, String>)
    ensures
        match create_stage_input(model(*input)) {
            Ok(c) => r matches Ok(f) && f.id.view() == c.id && f.name@ == c.name && f.width == c.width
                && f.height == c.height,
            Err(m) => r matches Err(e) && e@ == m,
        },
{
    proof {
        lemma_model_parts(*input);
    }
    match input {
        JsonValue::Object(ms) => {
            let id = document_id_member(ms, "id")?;
            let name = text_member_of(ms, "name")?;
            let width = crate::stage_json::u32_member(ms, "width")?;
            let height = crate::stage_json::u32_member(ms, "height")?;
            Ok(CreateStageFields { id, name, width, height })
        },
        _ => Err(not_object(input, "CreateStageInput")),
    }
}

/// Creates a hex-grid Stage document.
pub struct CreateStageCommand;

fn property(name: &str, t: &str) -> (e: (String, JsonValue)) {
    (string_of(name), type_schema(t))
}

impl CreateStageCommand {
    /// `stage.create`, needing `EditContent`.
    pub fn describe(&self) -> (d: CommandDescriptor)
        ensures
            d.id.view() == "stage.create"@,
            d.required_permissions.view() == set![Permission::EditContent],
    {
        proof {
            reveal_strlit("stage.create");
            reveal_strlit("stage.place_actor");
        }
        let mut props: Vec<(String, JsonValue)> = Vec::new();
        props.push(property("id", "string"));
        props.push(property("name", "string"));
        props.push(property("width", "integer"));
        props.push(property("height", "integer"));
        let mut related: Vec<ToolId> = Vec::new();
        related.push(static_tool("stage.place_actor"));
        CommandDescriptor {
            id: static_tool("stage.create"),
            title: string_of("Create tactical Stage"),
            description: string_of("Create a hex-grid Stage authoring document."),
            input_schema: object_schema(vec!["id", "name", "width", "height"], props),
            output_schema: type_schema("object"),
            required_permissions: edit_content(),
            side_effects: one_string("creates_document"),
            related_tools: related,
        }
    }

    /// A malformed input, a zero dimension and an identifier already in use are errors.
    pub fn check(&self, input: &JsonValue, state: &EngineState) -> (bag: DiagnosticBag)
        ensures
            bag.view() == create_stage_diags(model(*input), state.documents.view()),
    {
        let mut bag = DiagnosticBag::new();
        match parse_create_stage(input) {
            Ok(f) => {
                if f.width == 0 || f.height == 0 {
                    bag.push(Diagnostic::error("STAGE_DIMENSIONS_INVALID", string_of("Stage dimensions must be greater than zero")));
                }
                if state.documents.get(&f.id).is_ok() {
                    bag.push(Diagnostic::error("DOCUMENT_ALREADY_EXISTS", string_of("Stage id already exists")).at_document(f.id));
                }
            },
            Err(e) => bag.push(Diagnostic::error("COMMAND_INPUT_INVALID", e)),
        }
        assert(bag.view() =~= create_stage_diags(model(*input), state.documents.view()));
        bag
    }

    /// Stores the new Stage (see `new_stage`), unless its identifier is in use.
    pub fn run(&self, input: &JsonValue, state: &mut EngineState) -> (r: Result<JsonValue, CommandError>)
        ensures
            create_stage_applies(*input, old(state).documents.view(), final(state).documents.view(), r),
    {
        let f = match parse_create_stage(input) {
            Ok(f) => f,
            Err(e) => {
                return Err(CommandError::Serialization(e));
            },
        };
        if state.documents.get(&f.id).is_ok() {
            return Err(CommandError::Content(ContentError::DuplicateDocument(f.id)));
        }
        let out = stage_output_json(&f.id);
        let stage = StageDocument::new_hex(f.id, f.name.as_str(), f.width, f.height);
        proof {
            reveal_strlit("gameplay");
            assert(texts_view(stage.layers@) =~= seq!["gameplay"@]);
            assert(objects_view(stage.objects@) =~= Seq::<ObjectView>::empty());
            assert(connections_view(stage.connections@) =~= Seq::<ConnectionView>::empty());
        }
        store_stage(state, &stage);
        Ok(out)
    }
}


// ---------------------------------------------------------------------------------------
// stage.place_actor, stage.create_spawn, stage.create_trigger
// ---------------------------------------------------------------------------------------

/// The Stage a placement input targets and the object it places.
pub struct PlacementIn {
    pub stage_id: Seq<char>,
    pub object: ObjectView,
}

/// The target Stage and object identifier shared by placement inputs, then `rest`, which
/// reads the object's kind and properties, then the position `q`, `r`.
pub open spec fn placement_input(
    v: JsonModel,
    name: Seq<char>,
    rest: spec_fn(Seq<(Seq<char>, JsonModel)>) -> Result<(KindView, JsonModel), Seq<char>>,
) -> Result<PlacementIn, Seq<char>> {
    match v {
        JsonModel::Object(ms) => match id_member(ms, "stage_id"@) {
            Err(e) => Err(e),
            Ok(stage_id) => match id_member(ms, "object_id"@) {
                Err(e) => Err(e),
                Ok(object_id) => match rest(ms) {
                    Err(e) => Err(e),
                    Ok(kp) => match i32_field(ms, "q"@) {
                        Err(e) => Err(e),
                        Ok(q) => match i32_field(ms, "r"@) {
                            Err(e) => Err(e),
                            Ok(r) => Ok(
                                PlacementIn {
                                    stage_id,
                                    object: ObjectView {
                                        id: object_id,
                                        position: HexCoord { q, r },
                                        object: kp.0,
                                        properties: kp.1,
                                    },
                                },
                            ),
                        },
                    },
                },
            },
        },
        _ => Err(not_object_message(v, name)),
    }
}

/// An actor's `definition` and its `properties` (`null` when absent).
pub open spec fn actor_rest() -> spec_fn(Seq<(Seq<char>, JsonModel)>) -> Result<(KindView, JsonModel), Seq<char>> {
    |ms: Seq<(Seq<char>, JsonModel)>|
        match id_member(ms, "definition"@) {
            Err(e) => Err(e),
            Ok(definition) => Ok(
                (
                    KindView::Actor { definition },
                    match member_get(ms, "properties"@) {
                        None => JsonModel::Null,
                        Some(p) => p,
                    },
                ),
            ),
        }
}

/// A spawn point's `profile`; its properties are an empty object.
pub open spec fn spawn_rest() -> spec_fn(Seq<(Seq<char>, JsonModel)>) -> Result<(KindView, JsonModel), Seq<char>> {
    |ms: Seq<(Seq<char>, JsonModel)>|
        match text_member(ms, "profile"@) {
            Err(e) => Err(e),
            Ok(profile) => Ok((KindView::SpawnPoint { profile }, JsonModel::Object(Seq::empty()))),
        }
}

/// A trigger's `activation`, `conditions` and `effects`; its properties are an empty
/// object.
pub open spec fn trigger_rest() -> spec_fn(Seq<(Seq<char>, JsonModel)>) -> Result<(KindView, JsonModel), Seq<char>> {
    |ms: Seq<(Seq<char>, JsonModel)>|
        match text_member(ms, "activation"@) {
            Err(e) => Err(e),
            Ok(activation) => match list_field(ms, "conditions"@) {
                Err(e) => Err(e),
                Ok(conditions) => match list_field(ms, "effects"@) {
                    Err(e) => Err(e),
                    Ok(effects) => Ok(
                        (KindView::Trigger { activation, conditions, effects }, JsonModel::Object(Seq::empty())),
                    ),
                },
            },
        }
}

/// What an actor-placement input holds (`stage_id`, `object_id`, `definition` and
/// `properties`, `q`, `r`).
pub open spec fn place_actor_input(v: JsonModel) -> Result<PlacementIn, Seq<char>> {
    placement_input(v, "PlaceActorInput"@, actor_rest())
}

/// What a spawn-point input holds (`stage_id`, `object_id`, `profile`, `q`, `r`).
pub open spec fn create_spawn_input(v: JsonModel) -> Result<PlacementIn, Seq<char>> {
    placement_input(v, "CreateSpawnInput"@, spawn_rest())
}

/// What a trigger input holds (`stage_id`, `object_id`, `activation` and the lists
/// `conditions` and `effects`, empty when absent, `q`, `r`).
pub open spec fn create_trigger_input(v: JsonModel) -> Result<PlacementIn, Seq<char>> {
    placement_input(v, "CreateTriggerInput"@, trigger_rest())
}

fn actor_parts(ms: &Vec<(String, JsonValue)>) -> (r: Result<(StageObjectKind, JsonValue), String>)
    ensures
        match (actor_rest())(members_model(ms@)) {
            Ok(kp) => r matches Ok(x) && x.0.view() == kp.0 && model(x.1) == kp.1,
            Err(m) => r matches Err(e) && e@ == m,
        },
{
    let definition = document_id_member(ms, "definition")?;
    let properties = match member(ms, "properties") {
        None => JsonValue::Null,
        Some(p) => json_clone(p),
    };
    Ok((StageObjectKind::Actor { definition }, properties))
}

fn spawn_parts(ms: &Vec<(String, JsonValue)>) -> (r: Result<(StageObjectKind, JsonValue), String>)
    ensures
        match (spawn_rest())(members_model(ms@)) {
            Ok(kp) => r matches Ok(x) && x.0.view() == kp.0 && model(x.1) == kp.1,
            Err(m) => r matches Err(e) && e@ == m,
        },
{
    let profile = text_member_of(ms, "profile")?;
    Ok((StageObjectKind::SpawnPoint { profile }, empty_object()))
}

fn trigger_parts(ms: &Vec<(String, JsonValue)>) -> (r: Result<(StageObjectKind, JsonValue), String>)
    ensures
        match (trigger_rest())(members_model(ms@)) {
            Ok(kp) => r matches Ok(x) && x.0.view() == kp.0 && model(x.1) == kp.1,
            Err(m) => r matches Err(e) && e@ == m,
        },
{
    let ghost mm = members_model(ms@);
    let activation = text_member_of(ms, "activation")?;
    let conditions = match list_member(ms, "conditions") {
        Ok(o) => cloned_list(o),
        Err(e) => {
            return Err(e);
        },
    };
    assert(list_field(mm, "conditions"@) == Ok::<Seq<JsonModel>, Seq<char>>(crate::json::items_model(conditions@)));
    let effects = match list_member(ms, "effects") {
        Ok(o) => cloned_list(o),
        Err(e) => {
            return Err(e);
        },
    };
    assert(list_field(mm, "effects"@) == Ok::<Seq<JsonModel>, Seq<char>>(crate::json::items_model(effects@)));
    Ok((StageObjectKind::Trigger { activation, conditions, effects }, empty_object()))
}

/// Which object kind a placement reads.
enum Placed {
    Actor,
    Spawn,
    Trigger,
}

spec fn placed_rest(p: Placed) -> spec_fn(Seq<(Seq<char>, JsonModel)>) -> Result<(KindView, JsonModel), Seq<char>> {
    match p {
        Placed::Actor => actor_rest(),
        Placed::Spawn => spawn_rest(),
        Placed::Trigger => trigger_rest(),
    }
}

fn placed_parts(p: &Placed, ms: &Vec<(String, JsonValue)>) -> (r: Result<(StageObjectKind, JsonValue), String>)
    ensures
        match (placed_rest(*p))(members_model(ms@)) {
            Ok(kp) => r matches Ok(x) && x.0.view() == kp.0 && model(x.1) == kp.1,
            Err(m) => r matches Err(e) && e@ == m,
        },
{
    match p {
        Placed::Actor => actor_parts(ms),
        Placed::Spawn => spawn_parts(ms),
        Placed::Trigger => trigger_parts(ms),
    }
}

#[verifier::rlimit(40)]
fn parse_placement(input: &JsonValue, name: &str, p: Placed) -> (r: Result<(DocumentId, StageObject), String>)
    ensures
        match placement_input(model(*input), name@, placed_rest(p)) {
            Ok(a) => r matches Ok(x) && x.0.view() == a.stage_id && x.1.view() == a.object,
            Err(m) => r matches Err(e) && e@ == m,
        },
{
    proof {
        lemma_model_parts(*input);
    }
    match input {
        JsonValue::Object(ms) => {
            let stage_id = document_id_member(ms, "stage_id")?;
            let object_id = object_id_member(ms, "object_id")?;
            let (object, properties) = placed_parts(&p, ms)?;
            let position = position_of(ms)?;
            Ok((stage_id, StageObject { id: object_id, position, object, properties }))
        },
        _ => Err(not_object(input, name)),
    }
}

/// Places an actor instance into a Stage.
pub struct PlaceActorCommand;

/// Creates a named spawn point in a Stage.
pub struct CreateSpawnCommand;

/// Creates a trigger in a Stage.
pub struct CreateTriggerCommand;

fn permissions_of(v: Vec<Permission>) -> (p: PermissionSet)
    ensures
        p.view() == v@.to_set(),
{
    PermissionSet::new(v)
}

impl PlaceActorCommand {
    /// `stage.place_actor`, needing `EditContent`.
    pub fn describe(&self) -> (d: CommandDescriptor)
        ensures
            d.id.view() == "stage.place_actor"@,
            d.required_permissions.view() == set![Permission::EditContent],
    {
        proof {
            reveal_strlit("stage.place_actor");
            reveal_strlit("stage.validate");
        }
        let mut props: Vec<(String, JsonValue)> = Vec::new();
        props.push(property("stage_id", "string"));
        props.push(property("object_id", "string"));
        props.push(property("definition", "string"));
        props.push(property("q", "integer"));
        props.push(property("r", "integer"));
        props.push(property("properties", "object"));
        let mut related: Vec<ToolId> = Vec::new();
        related.push(static_tool("stage.validate"));
        let mut effects = one_string("modifies_document");
        effects.push(string_of("creates_reference"));
        CommandDescriptor {
            id: static_tool("stage.place_actor"),
            title: string_of("Place actor"),
            description: string_of("Place an actor definition instance into a tactical Stage."),
            input_schema: object_schema(vec!["stage_id", "object_id", "definition", "q", "r"], props),
            output_schema: type_schema("object"),
            required_permissions: edit_content(),
            side_effects: effects,
            related_tools: related,
        }
    }

    /// Places the actor (see `placement`).
    pub fn run(&self, input: &JsonValue, state: &mut EngineState) -> (r: Result<JsonValue, CommandError>)
        ensures
            place_actor_applies(*input, old(state).documents.view(), final(state).documents.view(), r),
    {
        match parse_placement(input, "PlaceActorInput", Placed::Actor) {
            Ok((stage_id, object)) => place_object(state, &stage_id, object),
            Err(e) => Err(CommandError::Serialization(e)),
        }
    }
}

impl CreateSpawnCommand {
    /// `stage.create_spawn`, needing `EditContent`.
    pub fn describe(&self) -> (d: CommandDescriptor)
        ensures
            d.id.view() == "stage.create_spawn"@,
            d.required_permissions.view() == set![Permission::EditContent],
    {
        proof {
            reveal_strlit("stage.create_spawn");
            reveal_strlit("stage.validate");
        }
        let mut props: Vec<(String, JsonValue)> = Vec::new();
        props.push(property("stage_id", "string"));
        props.push(property("object_id", "string"));
        props.push(property("profile", "string"));
        props.push(property("q", "integer"));
        props.push(property("r", "integer"));
        let mut related: Vec<ToolId> = Vec::new();
        related.push(static_tool("stage.validate"));
        CommandDescriptor {
            id: static_tool("stage.create_spawn"),
            title: string_of("Create spawn point"),
            description: string_of("Create a named Stage spawn point."),
            input_schema: object_schema(vec!["stage_id", "object_id", "profile", "q", "r"], props),
            output_schema: type_schema("object"),
            required_permissions: edit_content(),
            side_effects: one_string("modifies_document"),
            related_tools: related,
        }
    }

    /// Places the spawn point (see `placement`).
    pub fn run(&self, input: &JsonValue, state: &mut EngineState) -> (r: Result<JsonValue, CommandError>)
        ensures
            create_spawn_applies(*input, old(state).documents.view(), final(state).documents.view(), r),
    {
        match parse_placement(input, "CreateSpawnInput", Placed::Spawn) {
            Ok((stage_id, object)) => place_object(state, &stage_id, object),
            Err(e) => Err(CommandError::Serialization(e)),
        }
    }
}

impl CreateTriggerCommand {
    /// `stage.create_trigger`, needing `EditContent`.
    pub fn describe(&self) -> (d: CommandDescriptor)
        ensures
            d.id.view() == "stage.create_trigger"@,
            d.required_permissions.view() == set![Permission::EditContent],
    {
        proof {
            reveal_strlit("stage.create_trigger");
            reveal_strlit("stage.validate");
        }
        let mut props: Vec<(String, JsonValue)> = Vec::new();
        props.push(property("stage_id", "string"));
        props.push(property("object_id", "string"));
        props.push(property("activation", "string"));
        props.push(property("q", "integer"));
        props.push(property("r", "integer"));
        props.push(property("conditions", "array"));
        props.push(property("effects", "array"));
        let mut related: Vec<ToolId> = Vec::new();
        related.push(static_tool("stage.validate"));
        CommandDescriptor {
            id: static_tool("stage.create_trigger"),
            title: string_of("Create trigger"),
            description: string_of("Create a trigger using registry-defined conditions and effects."),
            input_schema: object_schema(vec!["stage_id", "object_id", "activation", "q", "r"], props),
            output_schema: type_schema("object"),
            required_permissions: edit_content(),
            side_effects: one_string("modifies_document"),
            related_tools: related,
        }
    }

    /// Places the trigger (see `placement`).
    pub fn run(&self, input: &JsonValue, state: &mut EngineState) -> (r: Result<JsonValue, CommandError>)
        ensures
            create_trigger_applies(*input, old(state).documents.view(), final(state).documents.view(), r),
    {
        match parse_placement(input, "CreateTriggerInput", Placed::Trigger) {
            Ok((stage_id, object)) => place_object(state, &stage_id, object),
            Err(e) => Err(CommandError::Serialization(e)),
        }
    }
}


// ---------------------------------------------------------------------------------------
// stage.connect
// ---------------------------------------------------------------------------------------

/// The Stage a connection input targets and the connection it adds.
pub struct ConnectIn {
    pub stage_id: Seq<char>,
    pub connection: ConnectionView,
}

/// What a connection input holds (`stage_id`, `connection_id`, `to_stage`,
/// `entry_point`), or why it is refused.
pub open spec fn connect_input(v: JsonModel) -> Result<ConnectIn, Seq<char>> {
    match v {
        JsonModel::Object(ms) => match id_member(ms, "stage_id"@) {
            Err(e) => Err(e),
            Ok(stage_id) => match id_member(ms, "connection_id"@) {
                Err(e) => Err(e),
                Ok(id) => match id_member(ms, "to_stage"@) {
                    Err(e) => Err(e),
                    Ok(to_stage) => match text_member(ms, "entry_point"@) {
                        Err(e) => Err(e),
                        Ok(entry_point) => Ok(
                            ConnectIn { stage_id, connection: ConnectionView { id, to_stage, entry_point } },
                        ),
                    },
                },
            },
        },
        _ => Err(not_object_message(v, "ConnectStageInput"@)),
    }
}

/// Some connection of the Stage already has identifier `id`.
pub open spec fn connection_taken(sv: StageView, id: Seq<char>) -> bool {
    exists|k: int| 0 <= k < sv.connections.len() && (#[trigger] sv.connections[k]).id == id
}

/// The Stage with `c` appended to its connections.
pub open spec fn with_connection(sv: StageView, c: ConnectionView) -> StageView {
    StageView {
        id: sv.id,
        name: sv.name,
        coordinate_space: sv.coordinate_space,
        layers: sv.layers,
        objects: sv.objects,
        connections: sv.connections.push(c),
    }
}

fn parse_connect(input: &JsonValue) -> (r: Result<(DocumentId, StageConnection), String>)
    ensures
        match connect_input(model(*input)) {
            Ok(c) => r matches Ok(x) && x.0.view() == c.stage_id && x.1.view() == c.connection,
            Err(m) => r matches Err(e) && e@ == m,
        },
{
    proof {
        lemma_model_parts(*input);
    }
    match input {
        JsonValue::Object(ms) => {
            let stage_id = document_id_member(ms, "stage_id")?;
            let id = object_id_member(ms, "connection_id")?;
            let to_stage = document_id_member(ms, "to_stage")?;
            let entry_point = text_member_of(ms, "entry_point")?;
            Ok((stage_id, StageConnection { id, to_stage, entry_point }))
        },
        _ => Err(not_object(input, "ConnectStageInput")),
    }
}

fn connection_used(stage: &StageDocument, id: &ObjectId) -> (r: bool)
    ensures
        r == connection_taken(stage.view(), id.view()),
{
    let ghost sv = stage.view();
    let mut k: usize = 0;
    while k < stage.connections.len()
        invariant
            sv == stage.view(),
            k <= stage.connections@.len(),
            forall|j: int| 0 <= j < k ==> (#[trigger] sv.connections[j]).id != id.view(),
        decreases stage.connections@.len() - k,
    {
        if stage.connections[k].id.same(id) {
            assert(sv.connections[k as int].id == id.view());
            return true;
        }
        k = k + 1;
    }
    false
}

/// Connects one Stage to another.
pub struct ConnectStageCommand;

impl ConnectStageCommand {
    /// `stage.connect`, needing `EditContent`.
    pub fn describe(&self) -> (d: CommandDescriptor)
        ensures
            d.id.view() == "stage.connect"@,
            d.required_permissions.view() == set![Permission::EditContent],
    {
        proof {
            reveal_strlit("stage.connect");
            reveal_strlit("project.impact.analyze");
        }
        let mut props: Vec<(String, JsonValue)> = Vec::new();
        props.push(property("stage_id", "string"));
        props.push(property("connection_id", "string"));
        props.push(property("to_stage", "string"));
        props.push(property("entry_point", "string"));
        let mut related: Vec<ToolId> = Vec::new();
        related.push(static_tool("project.impact.analyze"));
        let mut effects = one_string("modifies_document");
        effects.push(string_of("creates_reference"));
        CommandDescriptor {
            id: static_tool("stage.connect"),
            title: string_of("Connect Stage"),
            description: string_of("Create a semantic connection from one Stage to another."),
            input_schema: object_schema(vec!["stage_id", "connection_id", "to_stage", "entry_point"], props),
            output_schema: type_schema("object"),
            required_permissions: edit_content(),
            side_effects: effects,
            related_tools: related,
        }
    }

    /// Adds the connection to a readable Stage that has none with the same identifier,
    /// and stores it; any refusal leaves the store unchanged.
    pub fn run(&self, input: &JsonValue, state: &mut EngineState) -> (r: Result<JsonValue, CommandError>)
        ensures
            connect_applies(*input, old(state).documents.view(), final(state).documents.view(), r),
    {
        let (stage_id, connection) = match parse_connect(input) {
            Ok(x) => x,
            Err(e) => {
                return Err(CommandError::Serialization(e));
            },
        };
        let mut stage = read_stage(&state.documents, &stage_id)?;
        let ghost sv = stage.view();
        if connection_used(&stage, &connection.id) {
            let mut m = string_of("connection id already exists: ");
            push_str(&mut m, connection.id.as_str());
            return Err(CommandError::InvalidInput(m));
        }
        let ghost cv = connection.view();
        let ghost before = stage.connections@;
        stage.connections.push(connection);
        assert(connections_view(stage.connections@) =~= connections_view(before).push(cv));
        assert(stage.view() == with_connection(sv, cv));
        store_stage(state, &stage);
        Ok(stage_output_json(&stage_id))
    }
}

// ---------------------------------------------------------------------------------------
// Queries
// ---------------------------------------------------------------------------------------

/// The Stage a query input names, or why the input is refused.
pub open spec fn stage_query_input(v: JsonModel) -> Result<Seq<char>, Seq<char>> {
    match v {
        JsonModel::Object(ms) => id_member(ms, "stage_id"@),
        _ => Err(not_object_message(v, "StageInput"@)),
    }
}

/// The text a query reports for a read failure.
pub open spec fn read_failure_text(f: ReadFailure, id: Seq<char>) -> Seq<char> {
    match f {
        ReadFailure::NotFound => "document not found: "@ + id,
        ReadFailure::WrongType(t) => "invalid document: "@ + wrong_stage_type_message(t),
        ReadFailure::Undecodable(m) => "serialization error: "@ + m,
    }
}

fn parse_stage_query(input: &JsonValue) -> (r: Result<DocumentId, String>)
    ensures
        match stage_query_input(model(*input)) {
            Ok(id) => r matches Ok(x) && x.view() == id,
            Err(m) => r matches Err(e) && e@ == m,
        },
{
    proof {
        lemma_model_parts(*input);
    }
    match input {
        JsonValue::Object(ms) => document_id_member(ms, "stage_id"),
        _ => Err(not_object(input, "StageInput")),
    }
}

fn framed_text(before: &str, middle: &str) -> (m: String)
    ensures
        m@ == before@ + middle@,
{
    let mut m = string_of(before);
    push_str(&mut m, middle);
    m
}

fn read_stage_for_query(store: &DocumentStore, id: &DocumentId) -> (r: Result<StageDocument, QueryError>)
    ensures
        match stage_in(store.view(), id.view()) {
            Ok(sv) => r matches Ok(s) && s.view() == sv,
            Err(f) => r matches Err(QueryError::Failed(m)) && m@ == read_failure_text(f, id.view()),
        },
{
    match read_stage(store, id) {
        Ok(s) => Ok(s),
        Err(CommandError::Content(ContentError::DocumentNotFound(x))) => Err(
            QueryError::Failed(framed_text("document not found: ", x.as_str())),
        ),
        Err(CommandError::Content(ContentError::InvalidDocument(m))) => Err(
            QueryError::Failed(framed_text("invalid document: ", m.as_str())),
        ),
        Err(CommandError::Content(ContentError::Serialization(m))) => Err(
            QueryError::Failed(framed_text("serialization error: ", m.as_str())),
        ),
        Err(_) => Err(QueryError::Failed(string_of(""))),
    }
}

/// Runs Stage validation.
pub struct ValidateStageQuery;

/// Summarises a Stage.
pub struct StageSummaryQuery;

fn read_validate_permissions() -> (p: PermissionSet)
    ensures
        p.view() == set![Permission::Read, Permission::RunValidation],
{
    let mut v: Vec<Permission> = Vec::new();
    v.push(Permission::Read);
    v.push(Permission::RunValidation);
    let p = PermissionSet::new(v);
    assert(v@ == seq![Permission::Read, Permission::RunValidation]);
    assert(seq![Permission::Read, Permission::RunValidation].to_set() =~= set![Permission::Read, Permission::RunValidation]) by {
        assert(seq![Permission::Read, Permission::RunValidation][0] == Permission::Read);
        assert(seq![Permission::Read, Permission::RunValidation][1] == Permission::RunValidation);
    }
    p
}

fn read_permission() -> (p: PermissionSet)
    ensures
        p.view() == set![Permission::Read],
{
    let mut v: Vec<Permission> = Vec::new();
    v.push(Permission::Read);
    let p = PermissionSet::new(v);
    assert(v@ == seq![Permission::Read]);
    assert(seq![Permission::Read].to_set() =~= set![Permission::Read]) by {
        assert(seq![Permission::Read][0] == Permission::Read);
    }
    p
}

fn stage_input_schema() -> (v: JsonValue) {
    let mut props: Vec<(String, JsonValue)> = Vec::new();
    props.push(property("stage_id", "string"));
    object_schema(vec!["stage_id"], props)
}

impl ValidateStageQuery {
    /// `stage.validate`, needing `Read` and `RunValidation`.
    pub fn describe(&self) -> (d: QueryDescriptor)
        ensures
            d.id.view() == "stage.validate"@,
            d.required_permissions.view() == set![Permission::Read, Permission::RunValidation],
    {
        proof {
            reveal_strlit("stage.validate");
            reveal_strlit("stage.create_spawn");
            reveal_strlit("stage.place_actor");
        }
        let mut related: Vec<ToolId> = Vec::new();
        related.push(static_tool("stage.create_spawn"));
        related.push(static_tool("stage.place_actor"));
        QueryDescriptor {
            id: static_tool("stage.validate"),
            title: string_of("Validate Stage"),
            description: string_of("Run tactical Stage validation and return structured diagnostics."),
            input_schema: stage_input_schema(),
            output_schema: type_schema("object"),
            required_permissions: read_validate_permissions(),
            related_tools: related,
        }
    }

    /// The diagnostics of the named Stage, as a bag.
    pub fn run(&self, input: &JsonValue, store: &DocumentStore) -> (r: Result<JsonValue, QueryError>)
        ensures
            validate_stage_answers(model(*input), store.view(), r),
    {
        let id = match parse_stage_query(input) {
            Ok(id) => id,
            Err(e) => {
                return Err(QueryError::Serialization(e));
            },
        };
        let stage = read_stage_for_query(store, &id)?;
        Ok(validate_stage(&stage).to_json())
    }
}

/// How many objects are actors (`actors`) or triggers (otherwise).
pub open spec fn count_kind(os: Seq<ObjectView>, actors: bool) -> nat
    decreases os.len(),
{
    if os.len() == 0 {
        0
    } else {
        count_kind(os.drop_last(), actors) + if (actors && os.last().object is Actor) || (!actors
            && os.last().object is Trigger) {
            1nat
        } else {
            0nat
        }
    }
}

/// The objects that are actors.
pub open spec fn actor_objects(os: Seq<ObjectView>) -> Seq<ObjectView> {
    os.filter(|o: ObjectView| o.object is Actor)
}

/// The objects that are triggers.
pub open spec fn trigger_objects(os: Seq<ObjectView>) -> Seq<ObjectView> {
    os.filter(|o: ObjectView| o.object is Trigger)
}

/// The objects that are spawn points.
pub open spec fn spawn_objects(os: Seq<ObjectView>) -> Seq<ObjectView> {
    os.filter(|o: ObjectView| o.object is SpawnPoint)
}

/// The objects that are markers.
pub open spec fn marker_objects(os: Seq<ObjectView>) -> Seq<ObjectView> {
    os.filter(|o: ObjectView| o.object is Marker)
}

/// The summary's counts count objects by kind: the actors count is the number of Actor
/// objects, the triggers count the number of Trigger objects, and actors, triggers, spawn
/// points and markers together are all the objects.
pub proof fn lemma_kind_counts(os: Seq<ObjectView>)
    ensures
        count_kind(os, true) == actor_objects(os).len(),
        count_kind(os, false) == trigger_objects(os).len(),
        count_kind(os, true) + count_kind(os, false) + spawn_objects(os).len() + marker_objects(os).len() == os.len(),
    decreases os.len(),
{
    reveal(Seq::filter);
    if os.len() > 0 {
        lemma_kind_counts(os.drop_last());
    }
}

/// A count as JSON.
pub open spec fn size_model(n: nat) -> JsonModel {
    JsonModel::Number(crate::json::NumberRepr::PosInt(n as u64))
}

/// The summary of a Stage: counts of actors, connections, objects and triggers, its
/// coordinate space, identifier and name.
pub open spec fn summary_model(sv: StageView) -> JsonModel {
    JsonModel::Object(
        seq![
            ("actors"@, size_model(count_kind(sv.objects, true))),
            ("connections"@, size_model(sv.connections.len())),
            ("coordinate_space"@, space_model(sv.coordinate_space)),
            ("id"@, text_model(sv.id)),
            ("name"@, text_model(sv.name)),
            ("objects"@, size_model(sv.objects.len())),
            ("triggers"@, size_model(count_kind(sv.objects, false))),
        ],
    )
}

fn size_json(n: usize) -> (v: JsonValue)
    ensures
        model(v) == size_model(n as nat),
{
    crate::json::json_u64(n as u64)
}

fn kind_counts(stage: &StageDocument) -> (r: (usize, usize))
    ensures
        r.0 == count_kind(stage.view().objects, true),
        r.1 == count_kind(stage.view().objects, false),
{
    let ghost os = stage.view().objects;
    let mut actors: usize = 0;
    let mut triggers: usize = 0;
    let mut i: usize = 0;
    while i < stage.objects.len()
        invariant
            os == stage.view().objects,
            i <= stage.objects@.len(),
            actors == count_kind(os.take(i as int), true),
            triggers == count_kind(os.take(i as int), false),
            actors + triggers <= i,
        decreases stage.objects@.len() - i,
    {
        assert(os.take(i + 1).drop_last() =~= os.take(i as int));
        assert(os.take(i + 1).last() == os[i as int]);
        match &stage.objects[i].object {
            StageObjectKind::Actor { .. } => {
                actors = actors + 1;
            },
            StageObjectKind::Trigger { .. } => {
                triggers = triggers + 1;
            },
            _ => {},
        }
        i = i + 1;
    }
    assert(os.take(i as int) =~= os);
    (actors, triggers)
}

fn summary_json(stage: &StageDocument) -> (v: JsonValue)
    ensures
        model(v) == summary_model(stage.view()),
{
    let ghost sv = stage.view();
    let (actors, triggers) = kind_counts(stage);
    let mut ms: Vec<(String, JsonValue)> = Vec::new();
    ms.push(entry("actors", size_json(actors)));
    ms.push(entry("connections", size_json(stage.connections.len())));
    ms.push(entry("coordinate_space", space_json(&stage.coordinate_space)));
    ms.push(entry("id", json_string(stage.id.as_str())));
    ms.push(entry("name", json_string(stage.name.as_str())));
    ms.push(entry("objects", size_json(stage.objects.len())));
    ms.push(entry("triggers", size_json(triggers)));
    let v = object_of(ms);
    assert(members_model(ms@) =~= summary_model(sv)->Object_0);
    v
}

impl StageSummaryQuery {
    /// `stage.summary`, needing `Read`.
    pub fn describe(&self) -> (d: QueryDescriptor)
        ensures
            d.id.view() == "stage.summary"@,
            d.required_permissions.view() == set![Permission::Read],
    {
        proof {
            reveal_strlit("stage.summary");
            reveal_strlit("stage.validate");
        }
        let mut related: Vec<ToolId> = Vec::new();
        related.push(static_tool("stage.validate"));
        QueryDescriptor {
            id: static_tool("stage.summary"),
            title: string_of("Stage summary"),
            description: string_of("Return a compact semantic Stage summary for agent context."),
            input_schema: stage_input_schema(),
            output_schema: type_schema("object"),
            required_permissions: read_permission(),
            related_tools: related,
        }
    }

    /// The summary of the named Stage (see `summary_model`).
    pub fn run(&self, input: &JsonValue, store: &DocumentStore) -> (r: Result<JsonValue, QueryError>)
        ensures
            stage_summary_answers(model(*input), store.view(), r),
    {
        let id = match parse_stage_query(input) {
            Ok(id) => id,
            Err(e) => {
                return Err(QueryError::Serialization(e));
            },
        };
        let stage = read_stage_for_query(store, &id)?;
        Ok(summary_json(&stage))
    }
}

// ---------------------------------------------------------------------------------------
// Registration
// ---------------------------------------------------------------------------------------

pub open spec fn create_stage_applies(input: JsonValue, before: Seq<(Seq<char>, EnvelopeView)>, after: Seq<(Seq<char>, EnvelopeView)>, r: Result<JsonValue, CommandError>) -> bool {
    match create_stage_input(model(input)) {
        Err(m) => r matches Err(CommandError::Serialization(e)) && e@ == m
            && after == before,
        Ok(c) => match key_index(before, c.id) {
            Some(_) => r matches Err(CommandError::Content(ContentError::DuplicateDocument(d)))
                && d.view() == c.id && after == before,
            None => r matches Ok(out) && model(out) == stage_output(c.id) && stage_stored(
                before,
                after,
                new_stage(c),
            ),
        },
    }
}

pub open spec fn place_actor_applies(input: JsonValue, before: Seq<(Seq<char>, EnvelopeView)>, after: Seq<(Seq<char>, EnvelopeView)>, r: Result<JsonValue, CommandError>) -> bool {
    match place_actor_input(model(input)) {
        Err(m) => r matches Err(CommandError::Serialization(e)) && e@ == m
            && after == before,
        Ok(a) => placement(before, after, a.stage_id, a.object, r),
    }
}

pub open spec fn create_spawn_applies(input: JsonValue, before: Seq<(Seq<char>, EnvelopeView)>, after: Seq<(Seq<char>, EnvelopeView)>, r: Result<JsonValue, CommandError>) -> bool {
    match create_spawn_input(model(input)) {
        Err(m) => r matches Err(CommandError::Serialization(e)) && e@ == m
            && after == before,
        Ok(a) => placement(before, after, a.stage_id, a.object, r),
    }
}

pub open spec fn create_trigger_applies(input: JsonValue, before: Seq<(Seq<char>, EnvelopeView)>, after: Seq<(Seq<char>, EnvelopeView)>, r: Result<JsonValue, CommandError>) -> bool {
    match create_trigger_input(model(input)) {
        Err(m) => r matches Err(CommandError::Serialization(e)) && e@ == m
            && after == before,
        Ok(a) => placement(before, after, a.stage_id, a.object, r),
    }
}

pub open spec fn connect_applies(input: JsonValue, before: Seq<(Seq<char>, EnvelopeView)>, after: Seq<(Seq<char>, EnvelopeView)>, r: Result<JsonValue, CommandError>) -> bool {
    match connect_input(model(input)) {
        Err(m) => r matches Err(CommandError::Serialization(e)) && e@ == m
            && after == before,
        Ok(c) => match stage_in(before, c.stage_id) {
            Err(f) => r matches Err(e) && read_failed(f, c.stage_id, e)
                && after == before,
            Ok(sv) => if connection_taken(sv, c.connection.id) {
                r matches Err(CommandError::InvalidInput(m)) && m@ == "connection id already exists: "@
                    + c.connection.id && after == before
            } else {
                r matches Ok(out) && model(out) == stage_output(c.stage_id) && stage_stored(
                    before,
                    after,
                    with_connection(sv, c.connection),
                )
            },
        },
    }
}

/// The tactical commands.
pub enum TacticalCommand {
    CreateStage(CreateStageCommand),
    PlaceActor(PlaceActorCommand),
    CreateSpawn(CreateSpawnCommand),
    CreateTrigger(CreateTriggerCommand),
    Connect(ConnectStageCommand),
}

impl CommandHandler for TacticalCommand {
    open spec fn tool_id(&self) -> Seq<char> {
        match self {
            TacticalCommand::CreateStage(_) => "stage.create"@,
            TacticalCommand::PlaceActor(_) => "stage.place_actor"@,
            TacticalCommand::CreateSpawn(_) => "stage.create_spawn"@,
            TacticalCommand::CreateTrigger(_) => "stage.create_trigger"@,
            TacticalCommand::Connect(_) => "stage.connect"@,
        }
    }

    open spec fn needs(&self) -> Set<Permission> {
        set![Permission::EditContent]
    }

    /// Every tactical command declares a project scan.
    open spec fn plans(&self, input: JsonValue, plan: Result<DocumentAccessPlan, CommandError>) -> bool {
        plan matches Ok(p) && p.required@.len() == 0 && p.scans_project
    }

    open spec fn checks(&self, input: JsonValue, documents: Seq<(Seq<char>, EnvelopeView)>) -> Seq<DiagnosticView> {
        match self {
            TacticalCommand::CreateStage(_) => create_stage_diags(model(input), documents),
            _ => Seq::empty(),
        }
    }

    open spec fn applies(
        &self,
        input: JsonValue,
        before: Seq<(Seq<char>, EnvelopeView)>,
        after: Seq<(Seq<char>, EnvelopeView)>,
        result: Result<JsonValue, CommandError>,
    ) -> bool {
        match self {
            TacticalCommand::CreateStage(_) => create_stage_applies(input, before, after, result),
            TacticalCommand::PlaceActor(_) => place_actor_applies(input, before, after, result),
            TacticalCommand::CreateSpawn(_) => create_spawn_applies(input, before, after, result),
            TacticalCommand::CreateTrigger(_) => create_trigger_applies(input, before, after, result),
            TacticalCommand::Connect(_) => connect_applies(input, before, after, result),
        }
    }

    open spec fn shaped(&self, s: SchemaNode) -> bool {
        match self {
            TacticalCommand::CreateStage(_) => object_of_fields(
                s,
                seq![("id"@, true, ValueKind::String, None), ("name"@, true, ValueKind::String, None), ("width"@, true, ValueKind::Integer, None), ("height"@, true, ValueKind::Integer, None)],
            ),
            TacticalCommand::PlaceActor(_) => object_of_fields(
                s,
                seq![("stage_id"@, true, ValueKind::String, None), ("object_id"@, true, ValueKind::String, None), ("definition"@, true, ValueKind::String, None), ("q"@, true, ValueKind::Integer, None), ("r"@, true, ValueKind::Integer, None), ("properties"@, false, ValueKind::Object, None)],
            ),
            TacticalCommand::CreateSpawn(_) => object_of_fields(
                s,
                seq![("stage_id"@, true, ValueKind::String, None), ("object_id"@, true, ValueKind::String, None), ("profile"@, true, ValueKind::String, None), ("q"@, true, ValueKind::Integer, None), ("r"@, true, ValueKind::Integer, None)],
            ),
            TacticalCommand::CreateTrigger(_) => object_of_fields(
                s,
                seq![("stage_id"@, true, ValueKind::String, None), ("object_id"@, true, ValueKind::String, None), ("activation"@, true, ValueKind::String, None), ("q"@, true, ValueKind::Integer, None), ("r"@, true, ValueKind::Integer, None), ("conditions"@, false, ValueKind::Array, Some(ValueKind::Any)), ("effects"@, false, ValueKind::Array, Some(ValueKind::Any))],
            ),
            TacticalCommand::Connect(_) => object_of_fields(
                s,
                seq![("stage_id"@, true, ValueKind::String, None), ("connection_id"@, true, ValueKind::String, None), ("to_stage"@, true, ValueKind::String, None), ("entry_point"@, true, ValueKind::String, None)],
            ),
        }
    }

    fn descriptor(&self) -> CommandDescriptor {
        match self {
            TacticalCommand::CreateStage(c) => c.describe(),
            TacticalCommand::PlaceActor(c) => c.describe(),
            TacticalCommand::CreateSpawn(c) => c.describe(),
            TacticalCommand::CreateTrigger(c) => c.describe(),
            TacticalCommand::Connect(c) => c.describe(),
        }
    }

    fn document_access(&self, input: &JsonValue) -> Result<DocumentAccessPlan, CommandError> {
        Ok(DocumentAccessPlan::project())
    }

    fn validate(&self, input: &JsonValue, state: &EngineState) -> DiagnosticBag {
        match self {
            TacticalCommand::CreateStage(c) => c.check(input, state),
            _ => {
                let bag = DiagnosticBag::new();
                assert(bag.view() =~= Seq::<DiagnosticView>::empty());
                bag
            },
        }
    }

    fn apply(&self, input: &JsonValue, state: &mut EngineState) -> Result<JsonValue, CommandError> {
        match self {
            TacticalCommand::CreateStage(c) => c.run(input, state),
            TacticalCommand::PlaceActor(c) => c.run(input, state),
            TacticalCommand::CreateSpawn(c) => c.run(input, state),
            TacticalCommand::CreateTrigger(c) => c.run(input, state),
            TacticalCommand::Connect(c) => c.run(input, state),
        }
    }

    fn input_schema(&self) -> SchemaNode {
        match self {
            TacticalCommand::CreateStage(_) => SchemaNode::object(
                vec![
                    FieldSchema::required("id", SchemaNode::string()),
                    FieldSchema::required("name", SchemaNode::string()),
                    FieldSchema::required("width", SchemaNode::integer()),
                    FieldSchema::required("height", SchemaNode::integer()),
                ],
            ),
            TacticalCommand::PlaceActor(_) => SchemaNode::object(
                vec![
                    FieldSchema::required("stage_id", SchemaNode::string()),
                    FieldSchema::required("object_id", SchemaNode::string()),
                    FieldSchema::required("definition", SchemaNode::string()),
                    FieldSchema::required("q", SchemaNode::integer()),
                    FieldSchema::required("r", SchemaNode::integer()),
                    FieldSchema::optional("properties", SchemaNode::object(Vec::new())),
                ],
            ),
            TacticalCommand::CreateSpawn(_) => SchemaNode::object(
                vec![
                    FieldSchema::required("stage_id", SchemaNode::string()),
                    FieldSchema::required("object_id", SchemaNode::string()),
                    FieldSchema::required("profile", SchemaNode::string()),
                    FieldSchema::required("q", SchemaNode::integer()),
                    FieldSchema::required("r", SchemaNode::integer()),
                ],
            ),
            TacticalCommand::CreateTrigger(_) => SchemaNode::object(
                vec![
                    FieldSchema::required("stage_id", SchemaNode::string()),
                    FieldSchema::required("object_id", SchemaNode::string()),
                    FieldSchema::required("activation", SchemaNode::string()),
                    FieldSchema::required("q", SchemaNode::integer()),
                    FieldSchema::required("r", SchemaNode::integer()),
                    FieldSchema::optional("conditions", SchemaNode::array(SchemaNode::any())),
                    FieldSchema::optional("effects", SchemaNode::array(SchemaNode::any())),
                ],
            ),
            TacticalCommand::Connect(_) => SchemaNode::object(
                vec![
                    FieldSchema::required("stage_id", SchemaNode::string()),
                    FieldSchema::required("connection_id", SchemaNode::string()),
                    FieldSchema::required("to_stage", SchemaNode::string()),
                    FieldSchema::required("entry_point", SchemaNode::string()),
                ],
            ),
        }
    }
}

pub open spec fn validate_stage_answers(input: JsonModel, store: Seq<(Seq<char>, EnvelopeView)>, r: Result<JsonValue, QueryError>) -> bool {
    match stage_query_input(input) {
        Err(m) => r matches Err(QueryError::Serialization(e)) && e@ == m,
        Ok(id) => match stage_in(store, id) {
            Err(f) => r matches Err(QueryError::Failed(m)) && m@ == read_failure_text(f, id),
            Ok(sv) => r matches Ok(v) && model(v) == bag_model(stage_diags(sv)),
        },
    }
}

pub open spec fn stage_summary_answers(input: JsonModel, store: Seq<(Seq<char>, EnvelopeView)>, r: Result<JsonValue, QueryError>) -> bool {
    match stage_query_input(input) {
        Err(m) => r matches Err(QueryError::Serialization(e)) && e@ == m,
        Ok(id) => match stage_in(store, id) {
            Err(f) => r matches Err(QueryError::Failed(m)) && m@ == read_failure_text(f, id),
            Ok(sv) => r matches Ok(v) && model(v) == summary_model(sv),
        },
    }
}

/// The tactical queries.
pub enum TacticalQuery {
    Validate(ValidateStageQuery),
    Summary(StageSummaryQuery),
}

impl QueryHandler for TacticalQuery {
    open spec fn tool_id(&self) -> Seq<char> {
        match self {
            TacticalQuery::Validate(_) => "stage.validate"@,
            TacticalQuery::Summary(_) => "stage.summary"@,
        }
    }

    open spec fn needs(&self) -> Set<Permission> {
        match self {
            TacticalQuery::Validate(_) => set![Permission::Read, Permission::RunValidation],
            TacticalQuery::Summary(_) => set![Permission::Read],
        }
    }

    /// Every tactical query declares a project scan.
    open spec fn plans(&self, input: JsonModel, plan: Result<DocumentAccessPlan, QueryError>) -> bool {
        plan matches Ok(p) && p.required@.len() == 0 && p.scans_project
    }

    open spec fn answers(&self, input: JsonModel, store: Seq<(Seq<char>, EnvelopeView)>, result: Result<JsonValue, QueryError>) -> bool {
        match self {
            TacticalQuery::Validate(_) => validate_stage_answers(input, store, result),
            TacticalQuery::Summary(_) => stage_summary_answers(input, store, result),
        }
    }

    fn descriptor(&self) -> QueryDescriptor {
        match self {
            TacticalQuery::Validate(q) => q.describe(),
            TacticalQuery::Summary(q) => q.describe(),
        }
    }

    fn document_access(&self, input: &JsonValue) -> Result<DocumentAccessPlan, QueryError> {
        Ok(DocumentAccessPlan::project())
    }

    fn execute(&self, input: &JsonValue, store: &DocumentStore) -> Result<JsonValue, QueryError> {
        match self {
            TacticalQuery::Validate(q) => q.run(input, store),
            TacticalQuery::Summary(q) => q.run(input, store),
        }
    }
}

/// Registers the five tactical commands: this succeeds exactly when none of their
/// identifiers is registered, and then adds those five.
#[verifier::spinoff_prover]
#[verifier::rlimit(100)]
pub fn register_tactical_commands(registry: &mut CommandRegistry<TacticalCommand>) -> (r: Result<(), CommandError>)
    requires
        ascending(old(registry).view()),
    ensures
        ascending(final(registry).view()),
        r is Ok <==> (!old(registry).view().contains("stage.create"@) && !old(registry).view().contains("stage.place_actor"@) && !old(registry).view().contains("stage.create_spawn"@) && !old(registry).view().contains("stage.create_trigger"@) && !old(registry).view().contains("stage.connect"@)),
        r is Ok ==> adds(old(registry).view(), final(registry).view(), seq!["stage.create"@, "stage.place_actor"@, "stage.create_spawn"@, "stage.create_trigger"@, "stage.connect"@]),
        r is Ok ==> final(registry).entries().contains(TacticalCommand::CreateStage(CreateStageCommand)),
        r is Ok ==> final(registry).entries().contains(TacticalCommand::PlaceActor(PlaceActorCommand)),
        r is Ok ==> final(registry).entries().contains(TacticalCommand::CreateSpawn(CreateSpawnCommand)),
        r is Ok ==> final(registry).entries().contains(TacticalCommand::CreateTrigger(CreateTriggerCommand)),
        r is Ok ==> final(registry).entries().contains(TacticalCommand::Connect(ConnectStageCommand)),
{
    proof {
        reveal_strlit("stage.create");
        reveal_strlit("stage.place_actor");
        reveal_strlit("stage.create_spawn");
        reveal_strlit("stage.create_trigger");
        reveal_strlit("stage.connect");
    }
    let ghost v0 = registry.view();
    match registry.register(TacticalCommand::CreateStage(CreateStageCommand)) {
        Ok(()) => {},
        Err(e) => {
            return Err(e);
        },
    }
    let ghost v1 = registry.view();
    match registry.register(TacticalCommand::PlaceActor(PlaceActorCommand)) {
        Ok(()) => {},
        Err(e) => {
            proof {
                assert("stage.place_actor"@.len() != "stage.create"@.len());
                assert(v0.contains("stage.place_actor"@));
            }
            return Err(e);
        },
    }
    let ghost v2 = registry.view();
    match registry.register(TacticalCommand::CreateSpawn(CreateSpawnCommand)) {
        Ok(()) => {},
        Err(e) => {
            proof {
                assert("stage.create_spawn"@.len() != "stage.create"@.len());
                assert("stage.create_spawn"@.len() != "stage.place_actor"@.len());
                assert(v1.contains("stage.create_spawn"@));
                assert(v0.contains("stage.create_spawn"@));
            }
            return Err(e);
        },
    }
    let ghost v3 = registry.view();
    match registry.register(TacticalCommand::CreateTrigger(CreateTriggerCommand)) {
        Ok(()) => {},
        Err(e) => {
            proof {
                assert("stage.create_trigger"@.len() != "stage.create"@.len());
                assert("stage.create_trigger"@.len() != "stage.place_actor"@.len());
                assert("stage.create_trigger"@.len() != "stage.create_spawn"@.len());
                assert(v2.contains("stage.create_trigger"@));
                assert(v1.contains("stage.create_trigger"@));
                assert(v0.contains("stage.create_trigger"@));
            }
            return Err(e);
        },
    }
    let ghost v4 = registry.view();
    match registry.register(TacticalCommand::Connect(ConnectStageCommand)) {
        Ok(()) => {},
        Err(e) => {
            proof {
                assert("stage.connect"@.len() != "stage.create"@.len());
                assert("stage.connect"@.len() != "stage.place_actor"@.len());
                assert("stage.connect"@.len() != "stage.create_spawn"@.len());
                assert("stage.connect"@.len() != "stage.create_trigger"@.len());
                assert(v3.contains("stage.connect"@));
                assert(v2.contains("stage.connect"@));
                assert(v1.contains("stage.connect"@));
                assert(v0.contains("stage.connect"@));
            }
            return Err(e);
        },
    }
    let ghost v5 = registry.view();
    proof {
        let ks = seq!["stage.create"@, "stage.place_actor"@, "stage.create_spawn"@, "stage.create_trigger"@, "stage.connect"@];
        assert forall|y: Seq<char>| #[trigger] registry.view().contains(y) <==> (v0.contains(y) || ks.contains(y)) by {
            if ks.contains(y) {
                let k = choose|k: int| 0 <= k < 5 && ks[k] == y;
                assert(k == 0 || k == 1 || k == 2 || k == 3 || k == 4);
            }
            if y == ks[0] || y == ks[1] || y == ks[2] || y == ks[3] || y == ks[4] {
                assert(ks.contains(y));
            }
            assert(v5.contains(y) <==> (v4.contains(y) || y == ks[4]));
            assert(v4.contains(y) <==> (v3.contains(y) || y == ks[3]));
            assert(v3.contains(y) <==> (v2.contains(y) || y == ks[2]));
            assert(v2.contains(y) <==> (v1.contains(y) || y == ks[1]));
            assert(v1.contains(y) <==> (v0.contains(y) || y == ks[0]));
        }
    }
    Ok(())
}

/// Registers the two tactical queries: this succeeds exactly when neither identifier is
/// registered, and then adds both.
pub fn register_tactical_queries(registry: &mut QueryRegistry<TacticalQuery>) -> (r: Result<(), QueryError>)
    requires
        ascending(old(registry).view()),
    ensures
        ascending(final(registry).view()),
        r is Ok <==> (!old(registry).view().contains("stage.validate"@) && !old(registry).view().contains("stage.summary"@)),
        r is Ok ==> adds(old(registry).view(), final(registry).view(), seq!["stage.validate"@, "stage.summary"@]),
        r is Ok ==> final(registry).entries().contains(TacticalQuery::Validate(ValidateStageQuery)),
        r is Ok ==> final(registry).entries().contains(TacticalQuery::Summary(StageSummaryQuery)),
{
    proof {
        reveal_strlit("stage.validate");
        reveal_strlit("stage.summary");
    }
    let ghost v0 = registry.view();
    match registry.register(TacticalQuery::Validate(ValidateStageQuery)) {
        Ok(()) => {},
        Err(e) => {
            return Err(e);
        },
    }
    let ghost v1 = registry.view();
    match registry.register(TacticalQuery::Summary(StageSummaryQuery)) {
        Ok(()) => {},
        Err(e) => {
            proof {
                assert("stage.summary"@.len() != "stage.validate"@.len());
                assert(v0.contains("stage.summary"@));
            }
            return Err(e);
        },
    }
    let ghost v2 = registry.view();
    proof {
        let ks = seq!["stage.validate"@, "stage.summary"@];
        assert forall|y: Seq<char>| #[trigger] registry.view().contains(y) <==> (v0.contains(y) || ks.contains(y)) by {
            if ks.contains(y) {
                let k = choose|k: int| 0 <= k < 2 && ks[k] == y;
                assert(k == 0 || k == 1);
            }
            if y == ks[0] || y == ks[1] {
                assert(ks.contains(y));
            }
            assert(v2.contains(y) <==> (v1.contains(y) || y == ks[1]));
            assert(v1.contains(y) <==> (v0.contains(y) || y == ks[0]));
        }
    }
    Ok(())
}

/// The commands of a tactical project: the engine's document commands and the tactical
/// commands.
pub enum ProjectCommand {
    Document(DocumentCommand),
    Tactical(TacticalCommand),
}

impl CommandHandler for ProjectCommand {
    open spec fn tool_id(&self) -> Seq<char> {
        match self {
            ProjectCommand::Document(c) => c.tool_id(),
            ProjectCommand::Tactical(c) => c.tool_id(),
        }
    }

    open spec fn needs(&self) -> Set<Permission> {
        match self {
            ProjectCommand::Document(c) => c.needs(),
            ProjectCommand::Tactical(c) => c.needs(),
        }
    }

    open spec fn plans(&self, input: JsonValue, plan: Result<DocumentAccessPlan, CommandError>) -> bool {
        match self {
            ProjectCommand::Document(c) => c.plans(input, plan),
            ProjectCommand::Tactical(c) => c.plans(input, plan),
        }
    }

    open spec fn checks(&self, input: JsonValue, documents: Seq<(Seq<char>, EnvelopeView)>) -> Seq<DiagnosticView> {
        match self {
            ProjectCommand::Document(c) => c.checks(input, documents),
            ProjectCommand::Tactical(c) => c.checks(input, documents),
        }
    }

    open spec fn applies(
        &self,
        input: JsonValue,
        before: Seq<(Seq<char>, EnvelopeView)>,
        after: Seq<(Seq<char>, EnvelopeView)>,
        result: Result<JsonValue, CommandError>,
    ) -> bool {
        match self {
            ProjectCommand::Document(c) => c.applies(input, before, after, result),
            ProjectCommand::Tactical(c) => c.applies(input, before, after, result),
        }
    }

    open spec fn shaped(&self, s: SchemaNode) -> bool {
        match self {
            ProjectCommand::Document(c) => c.shaped(s),
            ProjectCommand::Tactical(c) => c.shaped(s),
        }
    }

    fn descriptor(&self) -> CommandDescriptor {
        match self {
            ProjectCommand::Document(c) => c.descriptor(),
            ProjectCommand::Tactical(c) => c.descriptor(),
        }
    }

    fn document_access(&self, input: &JsonValue) -> Result<DocumentAccessPlan, CommandError> {
        match self {
            ProjectCommand::Document(c) => c.document_access(input),
            ProjectCommand::Tactical(c) => c.document_access(input),
        }
    }

    fn validate(&self, input: &JsonValue, state: &EngineState) -> DiagnosticBag {
        match self {
            ProjectCommand::Document(c) => c.validate(input, state),
            ProjectCommand::Tactical(c) => c.validate(input, state),
        }
    }

    fn apply(&self, input: &JsonValue, state: &mut EngineState) -> Result<JsonValue, CommandError> {
        match self {
            ProjectCommand::Document(c) => c.apply(input, state),
            ProjectCommand::Tactical(c) => c.apply(input, state),
        }
    }

    fn input_schema(&self) -> SchemaNode {
        match self {
            ProjectCommand::Document(c) => c.input_schema(),
            ProjectCommand::Tactical(c) => c.input_schema(),
        }
    }
}

/// The queries of a tactical project: the engine's queries and the tactical queries.
pub enum ProjectQuery {
    Builtin(BuiltinQuery),
    Tactical(TacticalQuery),
}

impl QueryHandler for ProjectQuery {
    open spec fn tool_id(&self) -> Seq<char> {
        match self {
            ProjectQuery::Builtin(q) => q.tool_id(),
            ProjectQuery::Tactical(q) => q.tool_id(),
        }
    }

    open spec fn needs(&self) -> Set<Permission> {
        match self {
            ProjectQuery::Builtin(q) => q.needs(),
            ProjectQuery::Tactical(q) => q.needs(),
        }
    }

    open spec fn plans(&self, input: JsonModel, plan: Result<DocumentAccessPlan, QueryError>) -> bool {
        match self {
            ProjectQuery::Builtin(q) => q.plans(input, plan),
            ProjectQuery::Tactical(q) => q.plans(input, plan),
        }
    }

    open spec fn answers(&self, input: JsonModel, store: Seq<(Seq<char>, EnvelopeView)>, result: Result<JsonValue, QueryError>) -> bool {
        match self {
            ProjectQuery::Builtin(q) => q.answers(input, store, result),
            ProjectQuery::Tactical(q) => q.answers(input, store, result),
        }
    }

    fn descriptor(&self) -> QueryDescriptor {
        match self {
            ProjectQuery::Builtin(q) => q.descriptor(),
            ProjectQuery::Tactical(q) => q.descriptor(),
        }
    }

    fn document_access(&self, input: &JsonValue) -> Result<DocumentAccessPlan, QueryError> {
        match self {
            ProjectQuery::Builtin(q) => q.document_access(input),
            ProjectQuery::Tactical(q) => q.document_access(input),
        }
    }

    fn execute(&self, input: &JsonValue, store: &DocumentStore) -> Result<JsonValue, QueryError> {
        match self {
            ProjectQuery::Builtin(q) => q.execute(input, store),
            ProjectQuery::Tactical(q) => q.execute(input, store),
        }
    }
}

/// Registers the engine's three document commands and the five tactical commands: this
/// succeeds exactly when none of their identifiers is registered, and then adds all eight.
#[verifier::spinoff_prover]
#[verifier::rlimit(100)]
pub fn register_project_commands(registry: &mut CommandRegistry<ProjectCommand>) -> (r: Result<(), CommandError>)
    requires
        ascending(old(registry).view()),
    ensures
        ascending(final(registry).view()),
        r is Ok <==> (!old(registry).view().contains("document.create"@) && !old(registry).view().contains("document.delete"@) && !old(registry).view().contains("document.set_field"@) && !old(registry).view().contains("stage.create"@) && !old(registry).view().contains("stage.place_actor"@) && !old(registry).view().contains("stage.create_spawn"@) && !old(registry).view().contains("stage.create_trigger"@) && !old(registry).view().contains("stage.connect"@)),
        r is Ok ==> adds(old(registry).view(), final(registry).view(), seq!["document.create"@, "document.delete"@, "document.set_field"@, "stage.create"@, "stage.place_actor"@, "stage.create_spawn"@, "stage.create_trigger"@, "stage.connect"@]),
        r is Ok ==> final(registry).entries().contains(ProjectCommand::Document(DocumentCommand::Create(CreateDocumentCommand))),
        r is Ok ==> final(registry).entries().contains(ProjectCommand::Document(DocumentCommand::Delete(DeleteDocumentCommand))),
        r is Ok ==> final(registry).entries().contains(ProjectCommand::Document(DocumentCommand::SetField(SetDocumentFieldCommand))),
        r is Ok ==> final(registry).entries().contains(ProjectCommand::Tactical(TacticalCommand::CreateStage(CreateStageCommand))),
        r is Ok ==> final(registry).entries().contains(ProjectCommand::Tactical(TacticalCommand::PlaceActor(PlaceActorCommand))),
        r is Ok ==> final(registry).entries().contains(ProjectCommand::Tactical(TacticalCommand::CreateSpawn(CreateSpawnCommand))),
        r is Ok ==> final(registry).entries().contains(ProjectCommand::Tactical(TacticalCommand::CreateTrigger(CreateTriggerCommand))),
        r is Ok ==> final(registry).entries().contains(ProjectCommand::Tactical(TacticalCommand::Connect(ConnectStageCommand))),
{
    proof {
        reveal_strlit("document.create");
        reveal_strlit("document.delete");
        reveal_strlit("document.set_field");
        reveal_strlit("stage.create");
        reveal_strlit("stage.place_actor");
        reveal_strlit("stage.create_spawn");
        reveal_strlit("stage.create_trigger");
        reveal_strlit("stage.connect");
    }
    let ghost v0 = registry.view();
    match registry.register(ProjectCommand::Document(DocumentCommand::Create(CreateDocumentCommand))) {
        Ok(()) => {},
        Err(e) => {
            return Err(e);
        },
    }
    let ghost v1 = registry.view();
    match registry.register(ProjectCommand::Document(DocumentCommand::Delete(DeleteDocumentCommand))) {
        Ok(()) => {},
        Err(e) => {
            proof {
                assert("document.delete"@[9] != "document.create"@[9]);
                assert(v0.contains("document.delete"@));
            }
            return Err(e);
        },
    }
    let ghost v2 = registry.view();
    match registry.register(ProjectCommand::Document(DocumentCommand::SetField(SetDocumentFieldCommand))) {
        Ok(()) => {},
        Err(e) => {
            proof {
                assert("document.set_field"@.len() != "document.create"@.len());
                assert("document.set_field"@.len() != "document.delete"@.len());
                assert(v1.contains("document.set_field"@));
                assert(v0.contains("document.set_field"@));
            }
            return Err(e);
        },
    }
    let ghost v3 = registry.view();
    match registry.register(ProjectCommand::Tactical(TacticalCommand::CreateStage(CreateStageCommand))) {
        Ok(()) => {},
        Err(e) => {
            proof {
                assert("stage.create"@.len() != "document.create"@.len());
                assert("stage.create"@.len() != "document.delete"@.len());
                assert("stage.create"@.len() != "document.set_field"@.len());
                assert(v2.contains("stage.create"@));
                assert(v1.contains("stage.create"@));
                assert(v0.contains("stage.create"@));
            }
            return Err(e);
        },
    }
    let ghost v4 = registry.view();
    match registry.register(ProjectCommand::Tactical(TacticalCommand::PlaceActor(PlaceActorCommand))) {
        Ok(()) => {},
        Err(e) => {
            proof {
                assert("stage.place_actor"@.len() != "document.create"@.len());
                assert("stage.place_actor"@.len() != "document.delete"@.len());
                assert("stage.place_actor"@.len() != "document.set_field"@.len());
                assert("stage.place_actor"@.len() != "stage.create"@.len());
                assert(v3.contains("stage.place_actor"@));
                assert(v2.contains("stage.place_actor"@));
                assert(v1.contains("stage.place_actor"@));
                assert(v0.contains("stage.place_actor"@));
            }
            return Err(e);
        },
    }
    let ghost v5 = registry.view();
    match registry.register(ProjectCommand::Tactical(TacticalCommand::CreateSpawn(CreateSpawnCommand))) {
        Ok(()) => {},
        Err(e) => {
            proof {
                assert("stage.create_spawn"@.len() != "document.create"@.len());
                assert("stage.create_spawn"@.len() != "document.delete"@.len());
                assert("stage.create_spawn"@[0] != "document.set_field"@[0]);
                assert("stage.create_spawn"@.len() != "stage.create"@.len());
                assert("stage.create_spawn"@.len() != "stage.place_actor"@.len());
                assert(v4.contains("stage.create_spawn"@));
                assert(v3.contains("stage.create_spawn"@));
                assert(v2.contains("stage.create_spawn"@));
                assert(v1.contains("stage.create_spawn"@));
                assert(v0.contains("stage.create_spawn"@));
            }
            return Err(e);
        },
    }
    let ghost v6 = registry.view();
    match registry.register(ProjectCommand::Tactical(TacticalCommand::CreateTrigger(CreateTriggerCommand))) {
        Ok(()) => {},
        Err(e) => {
            proof {
                assert("stage.create_trigger"@.len() != "document.create"@.len());
                assert("stage.create_trigger"@.len() != "document.delete"@.len());
                assert("stage.create_trigger"@.len() != "document.set_field"@.len());
                assert("stage.create_trigger"@.len() != "stage.create"@.len());
                assert("stage.create_trigger"@.len() != "stage.place_actor"@.len());
                assert("stage.create_trigger"@.len() != "stage.create_spawn"@.len());
                assert(v5.contains("stage.create_trigger"@));
                assert(v4.contains("stage.create_trigger"@));
                assert(v3.contains("stage.create_trigger"@));
                assert(v2.contains("stage.create_trigger"@));
                assert(v1.contains("stage.create_trigger"@));
                assert(v0.contains("stage.create_trigger"@));
            }
            return Err(e);
        },
    }
    let ghost v7 = registry.view();
    match registry.register(ProjectCommand::Tactical(TacticalCommand::Connect(ConnectStageCommand))) {
        Ok(()) => {},
        Err(e) => {
            proof {
                assert("stage.connect"@.len() != "document.create"@.len());
                assert("stage.connect"@.len() != "document.delete"@.len());
                assert("stage.connect"@.len() != "document.set_field"@.len());
                assert("stage.connect"@.len() != "stage.create"@.len());
                assert("stage.connect"@.len() != "stage.place_actor"@.len());
                assert("stage.connect"@.len() != "stage.create_spawn"@.len());
                assert("stage.connect"@.len() != "stage.create_trigger"@.len());
                assert(v6.contains("stage.connect"@));
                assert(v5.contains("stage.connect"@));
                assert(v4.contains("stage.connect"@));
                assert(v3.contains("stage.connect"@));
                assert(v2.contains("stage.connect"@));
                assert(v1.contains("stage.connect"@));
                assert(v0.contains("stage.connect"@));
            }
            return Err(e);
        },
    }
    let ghost v8 = registry.view();
    proof {
        let ks = seq!["document.create"@, "document.delete"@, "document.set_field"@, "stage.create"@, "stage.place_actor"@, "stage.create_spawn"@, "stage.create_trigger"@, "stage.connect"@];
        assert forall|y: Seq<char>| #[trigger] registry.view().contains(y) <==> (v0.contains(y) || ks.contains(y)) by {
            if ks.contains(y) {
                let k = choose|k: int| 0 <= k < 8 && ks[k] == y;
                assert(k == 0 || k == 1 || k == 2 || k == 3 || k == 4 || k == 5 || k == 6 || k == 7);
            }
            if y == ks[0] || y == ks[1] || y == ks[2] || y == ks[3] || y == ks[4] || y == ks[5] || y == ks[6] || y == ks[7] {
                assert(ks.contains(y));
            }
            assert(v8.contains(y) <==> (v7.contains(y) || y == ks[7]));
            assert(v7.contains(y) <==> (v6.contains(y) || y == ks[6]));
            assert(v6.contains(y) <==> (v5.contains(y) || y == ks[5]));
            assert(v5.contains(y) <==> (v4.contains(y) || y == ks[4]));
            assert(v4.contains(y) <==> (v3.contains(y) || y == ks[3]));
            assert(v3.contains(y) <==> (v2.contains(y) || y == ks[2]));
            assert(v2.contains(y) <==> (v1.contains(y) || y == ks[1]));
            assert(v1.contains(y) <==> (v0.contains(y) || y == ks[0]));
        }
    }
    Ok(())
}

/// Registers the engine's four queries and the two tactical queries: this succeeds
/// exactly when none of their identifiers is registered, and then adds all six.
#[verifier::spinoff_prover]
#[verifier::rlimit(100)]
pub fn register_project_queries(registry: &mut QueryRegistry<ProjectQuery>) -> (r: Result<(), QueryError>)
    requires
        ascending(old(registry).view()),
    ensures
        ascending(final(registry).view()),
        r is Ok <==> (!old(registry).view().contains("project.documents.list"@) && !old(registry).view().contains("project.document.get"@) && !old(registry).view().contains("project.references.find"@) && !old(registry).view().contains("project.impact.analyze"@) && !old(registry).view().contains("stage.validate"@) && !old(registry).view().contains("stage.summary"@)),
        r is Ok ==> adds(old(registry).view(), final(registry).view(), seq!["project.documents.list"@, "project.document.get"@, "project.references.find"@, "project.impact.analyze"@, "stage.validate"@, "stage.summary"@]),
        r is Ok ==> final(registry).entries().contains(ProjectQuery::Builtin(BuiltinQuery::List(ListDocumentsQuery))),
        r is Ok ==> final(registry).entries().contains(ProjectQuery::Builtin(BuiltinQuery::Get(GetDocumentQuery))),
        r is Ok ==> final(registry).entries().contains(ProjectQuery::Builtin(BuiltinQuery::FindReferences(FindReferencesQuery))),
        r is Ok ==> final(registry).entries().contains(ProjectQuery::Builtin(BuiltinQuery::Impact(ImpactQuery))),
        r is Ok ==> final(registry).entries().contains(ProjectQuery::Tactical(TacticalQuery::Validate(ValidateStageQuery))),
        r is Ok ==> final(registry).entries().contains(ProjectQuery::Tactical(TacticalQuery::Summary(StageSummaryQuery))),
{
    proof {
        reveal_strlit("project.documents.list");
        reveal_strlit("project.document.get");
        reveal_strlit("project.references.find");
        reveal_strlit("project.impact.analyze");
        reveal_strlit("stage.validate");
        reveal_strlit("stage.summary");
    }
    let ghost v0 = registry.view();
    match registry.register(ProjectQuery::Builtin(BuiltinQuery::List(ListDocumentsQuery))) {
        Ok(()) => {},
        Err(e) => {
            return Err(e);
        },
    }
    let ghost v1 = registry.view();
    match registry.register(ProjectQuery::Builtin(BuiltinQuery::Get(GetDocumentQuery))) {
        Ok(()) => {},
        Err(e) => {
            proof {
                assert("project.document.get"@.len() != "project.documents.list"@.len());
                assert(v0.contains("project.document.get"@));
            }
            return Err(e);
        },
    }
    let ghost v2 = registry.view();
    match registry.register(ProjectQuery::Builtin(BuiltinQuery::FindReferences(FindReferencesQuery))) {
        Ok(()) => {},
        Err(e) => {
            proof {
                assert("project.references.find"@.len() != "project.documents.list"@.len());
                assert("project.references.find"@.len() != "project.document.get"@.len());
                assert(v1.contains("project.references.find"@));
                assert(v0.contains("project.references.find"@));
            }
            return Err(e);
        },
    }
    let ghost v3 = registry.view();
    match registry.register(ProjectQuery::Builtin(BuiltinQuery::Impact(ImpactQuery))) {
        Ok(()) => {},
        Err(e) => {
            proof {
                assert("project.impact.analyze"@[8] != "project.documents.list"@[8]);
                assert("project.impact.analyze"@.len() != "project.document.get"@.len());
                assert("project.impact.analyze"@.len() != "project.references.find"@.len());
                assert(v2.contains("project.impact.analyze"@));
                assert(v1.contains("project.impact.analyze"@));
                assert(v0.contains("project.impact.analyze"@));
            }
            return Err(e);
        },
    }
    let ghost v4 = registry.view();
    match registry.register(ProjectQuery::Tactical(TacticalQuery::Validate(ValidateStageQuery))) {
        Ok(()) => {},
        Err(e) => {
            proof {
                assert("stage.validate"@.len() != "project.documents.list"@.len());
                assert("stage.validate"@.len() != "project.document.get"@.len());
                assert("stage.validate"@.len() != "project.references.find"@.len());
                assert("stage.validate"@.len() != "project.impact.analyze"@.len());
                assert(v3.contains("stage.validate"@));
                assert(v2.contains("stage.validate"@));
                assert(v1.contains("stage.validate"@));
                assert(v0.contains("stage.validate"@));
            }
            return Err(e);
        },
    }
    let ghost v5 = registry.view();
    match registry.register(ProjectQuery::Tactical(TacticalQuery::Summary(StageSummaryQuery))) {
        Ok(()) => {},
        Err(e) => {
            proof {
                assert("stage.summary"@.len() != "project.documents.list"@.len());
                assert("stage.summary"@.len() != "project.document.get"@.len());
                assert("stage.summary"@.len() != "project.references.find"@.len());
                assert("stage.summary"@.len() != "project.impact.analyze"@.len());
                assert("stage.summary"@.len() != "stage.validate"@.len());
                assert(v4.contains("stage.summary"@));
                assert(v3.contains("stage.summary"@));
                assert(v2.contains("stage.summary"@));
                assert(v1.contains("stage.summary"@));
                assert(v0.contains("stage.summary"@));
            }
            return Err(e);
        },
    }
    let ghost v6 = registry.view();
    proof {
        let ks = seq!["project.documents.list"@, "project.document.get"@, "project.references.find"@, "project.impact.analyze"@, "stage.validate"@, "stage.summary"@];
        assert forall|y: Seq<char>| #[trigger] registry.view().contains(y) <==> (v0.contains(y) || ks.contains(y)) by {
            if ks.contains(y) {
                let k = choose|k: int| 0 <= k < 6 && ks[k] == y;
                assert(k == 0 || k == 1 || k == 2 || k == 3 || k == 4 || k == 5);
            }
            if y == ks[0] || y == ks[1] || y == ks[2] || y == ks[3] || y == ks[4] || y == ks[5] {
                assert(ks.contains(y));
            }
            assert(v6.contains(y) <==> (v5.contains(y) || y == ks[5]));
            assert(v5.contains(y) <==> (v4.contains(y) || y == ks[4]));
            assert(v4.contains(y) <==> (v3.contains(y) || y == ks[3]));
            assert(v3.contains(y) <==> (v2.contains(y) || y == ks[2]));
            assert(v2.contains(y) <==> (v1.contains(y) || y == ks[1]));
            assert(v1.contains(y) <==> (v0.contains(y) || y == ks[0]));
        }
    }
    Ok(())
}

/// Whether a document type is the tactical Stage type.
pub fn is_tactical_document(type_id: &str) -> (r: bool)
    ensures
        r == (type_id@ == STAGE_DOCUMENT_TYPE@),
{
    crate::text::text_is(type_id, STAGE_DOCUMENT_TYPE)
}

} // verus!
