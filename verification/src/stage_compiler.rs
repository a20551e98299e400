use crate::command::input::{id_error, id_error_message};
use crate::content::{
    artifact_hash_of, content_hash_of, EnvelopeView, ArtifactEnvelope, ArtifactView, CompileContext, ContentError,
    DocumentCompiler, DocumentEnvelope, RuntimeObjectDescriptor, StageArtifactPayload,
};
use crate::ids::{identifier_result, is_blank, lemma_identifier_text, ArtifactId, EngineTypeId};
use crate::json::{json_clone, json_string, items_model, model, JsonModel, JsonValue};
use crate::stage::{
    dimensions_invalid, grid_dimensions_invalid, position_in_space, runtime_type_name,
    stage_position_in_bounds, CoordinateSpace, StageDocument, StageObjectKind,
    ACTOR_OBJECT_TYPE, MARKER_OBJECT_TYPE, SPAWN_OBJECT_TYPE, STAGE_ARTIFACT_TYPE,
    STAGE_DOCUMENT_TYPE, TRIGGER_OBJECT_TYPE,
};
use crate::stage_json::{
    array_of, connection_json, connection_model, entry, hex_json, hex_model, kind_json,
    kind_model, object_of, space_json, space_model, stage_decode, text_model,
    wrong_stage_type_message, KindView, ObjectView, StageView,
};
use crate::text::{push_str, string_of};
use vstd::prelude::*;

verus! {

/// The runtime type of an object kind.
pub open spec fn kind_runtime_type(k: KindView) -> Seq<char> {
    match k {
        KindView::Actor { .. } => ACTOR_OBJECT_TYPE@,
        KindView::Trigger { .. } => TRIGGER_OBJECT_TYPE@,
        KindView::SpawnPoint { .. } => SPAWN_OBJECT_TYPE@,
        KindView::Marker { .. } => MARKER_OBJECT_TYPE@,
    }
}

/// A runtime object as JSON.
pub open spec fn descriptor_model(id: Seq<char>, type_id: Seq<char>, properties: JsonModel) -> JsonModel {
    JsonModel::Object(
        seq![("id"@, text_model(id)), ("properties"@, properties), ("type_id"@, text_model(type_id))],
    )
}

/// The runtime properties of a compiled Stage object: its kind, position and authored
/// properties.
pub open spec fn runtime_properties(o: ObjectView) -> JsonModel {
    JsonModel::Object(
        seq![
            ("object"@, kind_model(o.object)),
            ("position"@, hex_model(o.position)),
            ("properties"@, o.properties),
        ],
    )
}

/// The runtime object a Stage object compiles to.
pub open spec fn compiled_object(o: ObjectView) -> JsonModel {
    descriptor_model(o.id, kind_runtime_type(o.object), runtime_properties(o))
}

/// The metadata of a compiled Stage: its connections, coordinate space and name.
pub open spec fn stage_metadata(sv: StageView) -> JsonModel {
    JsonModel::Object(
        seq![
            ("connections"@, JsonModel::Array(Seq::new(sv.connections.len(), |i: int| connection_model(sv.connections[i])))),
            ("coordinate_space"@, space_model(sv.coordinate_space)),
            ("name"@, text_model(sv.name)),
        ],
    )
}

/// The JSON payload of a compiled Stage.
pub open spec fn artifact_payload(sv: StageView) -> JsonModel {
    JsonModel::Object(
        seq![
            ("metadata"@, stage_metadata(sv)),
            ("objects"@, JsonModel::Array(Seq::new(sv.objects.len(), |i: int| compiled_object(sv.objects[i])))),
        ],
    )
}

/// What is wrong with the object at `i`: an identifier used by an earlier object, or a
/// position outside the coordinate space.
pub open spec fn object_problem(os: Seq<ObjectView>, space: CoordinateSpace, i: int) -> Option<Seq<char>> {
    if exists|j: int| 0 <= j < i && (#[trigger] os[j]).id == os[i].id {
        Some("duplicate Stage object id: "@ + os[i].id)
    } else if !position_in_space(space, os[i].position.q, os[i].position.r) {
        Some("Stage object "@ + os[i].id + " is outside the coordinate-space bounds"@)
    } else {
        None
    }
}

/// The first problem among the first `n` objects.
pub open spec fn objects_problem(os: Seq<ObjectView>, space: CoordinateSpace, n: nat) -> Option<Seq<char>>
    decreases n,
{
    if n == 0 {
        None
    } else {
        match objects_problem(os, space, (n - 1) as nat) {
            Some(m) => Some(m),
            None => object_problem(os, space, n - 1),
        }
    }
}

/// Why a Stage cannot be compiled, if it cannot: a blank name, a grid with a zero
/// dimension, or the first problem among its objects.
pub open spec fn stage_problem(sv: StageView) -> Option<Seq<char>> {
    if crate::ids::trims_to_empty(sv.name) {
        Some("stage name cannot be empty"@)
    } else if dimensions_invalid(sv.coordinate_space) {
        Some("grid Stage dimensions must be greater than zero"@)
    } else {
        objects_problem(sv.objects, sv.coordinate_space, sv.objects.len())
    }
}

/// The identifier of the artifact compiled from document `id`.
pub open spec fn artifact_id_text(id: Seq<char>) -> Seq<char> {
    "artifact."@ + id
}

proof fn lemma_problem_stays(os: Seq<ObjectView>, space: CoordinateSpace, k: nat, n: nat)
    requires
        k <= n,
        objects_problem(os, space, k) is Some,
    ensures
        objects_problem(os, space, n) == objects_problem(os, space, k),
    decreases n,
{
    if n > k {
        lemma_problem_stays(os, space, k, (n - 1) as nat);
    }
}

proof fn lemma_runtime_type(k: StageObjectKind)
    ensures
        runtime_type_name(k) == kind_runtime_type(k.view()),
{
}

/// The runtime objects of a payload as JSON.
pub open spec fn descriptors_model(ds: Seq<RuntimeObjectDescriptor>) -> Seq<JsonModel> {
    Seq::new(ds.len(), |i: int| descriptor_model(ds[i].id.view(), ds[i].type_id.view(), model(ds[i].properties)))
}

impl RuntimeObjectDescriptor {
    /// The descriptor as JSON.
    pub fn to_json(&self) -> (v: JsonValue)
        ensures
            model(v) == descriptor_model(self.id.view(), self.type_id.view(), model(self.properties)),
    {
        let mut ms: Vec<(String, JsonValue)> = Vec::new();
        ms.push(entry("id", json_string(self.id.as_str())));
        ms.push(entry("properties", json_clone(&self.properties)));
        ms.push(entry("type_id", json_string(self.type_id.as_str())));
        let v = object_of(ms);
        assert(members_model_of(ms@) =~= seq![
            ("id"@, text_model(self.id.view())),
            ("properties"@, model(self.properties)),
            ("type_id"@, text_model(self.type_id.view())),
        ]);
        v
    }
}

/// Members of an object as plain values.
pub open spec fn members_model_of(ms: Seq<(String, JsonValue)>) -> Seq<(Seq<char>, JsonModel)> {
    crate::json::members_model(ms)
}

impl StageArtifactPayload {
    /// The payload as JSON: `{"metadata": .., "objects": [..]}`.
    pub fn to_json(&self) -> (v: JsonValue)
        ensures
            model(v) == JsonModel::Object(
                seq![
                    ("metadata"@, model(self.metadata)),
                    ("objects"@, JsonModel::Array(descriptors_model(self.objects@))),
                ],
            ),
    {
        let mut objects: Vec<JsonValue> = Vec::new();
        let mut i: usize = 0;
        while i < self.objects.len()
            invariant
                i <= self.objects@.len(),
                objects@.len() == i,
                forall|j: int| 0 <= j < i ==> model(#[trigger] objects@[j]) == descriptors_model(self.objects@)[j],
            decreases self.objects@.len() - i,
        {
            objects.push(self.objects[i].to_json());
            i = i + 1;
        }
        assert(items_model(objects@) =~= descriptors_model(self.objects@));
        let mut ms: Vec<(String, JsonValue)> = Vec::new();
        ms.push(entry("metadata", json_clone(&self.metadata)));
        ms.push(entry("objects", array_of(objects)));
        let v = object_of(ms);
        assert(members_model_of(ms@) =~= seq![
            ("metadata"@, model(self.metadata)),
            ("objects"@, JsonModel::Array(descriptors_model(self.objects@))),
        ]);
        v
    }
}

/// Compiles tactical Stage documents into runtime artifacts.
pub struct StageCompiler;

fn type_id_of(value: &'static str) -> (id: EngineTypeId)
    requires
        value@.len() > 0,
        crate::ids::all_identifier_chars(value@),
    ensures
        id.view() == value@,
{
    proof {
        lemma_identifier_text(value@);
    }
    EngineTypeId::from_static(value)
}

fn metadata_json(stage: &StageDocument) -> (v: JsonValue)
    ensures
        model(v) == stage_metadata(stage.view()),
{
    let ghost sv = stage.view();
    let mut connections: Vec<JsonValue> = Vec::new();
    let mut i: usize = 0;
    while i < stage.connections.len()
        invariant
            sv == stage.view(),
            i <= stage.connections@.len(),
            connections@.len() == i,
            forall|j: int| 0 <= j < i ==> model(#[trigger] connections@[j]) == connection_model(sv.connections[j]),
        decreases stage.connections@.len() - i,
    {
        connections.push(connection_json(&stage.connections[i]));
        i = i + 1;
    }
    assert(items_model(connections@) =~= Seq::new(sv.connections.len(), |i: int| connection_model(sv.connections[i])));
    let mut ms: Vec<(String, JsonValue)> = Vec::new();
    ms.push(entry("connections", array_of(connections)));
    ms.push(entry("coordinate_space", space_json(&stage.coordinate_space)));
    ms.push(entry("name", json_string(stage.name.as_str())));
    let v = object_of(ms);
    assert(members_model_of(ms@) =~= stage_metadata(sv)->Object_0);
    v
}

fn runtime_descriptors(stage: &StageDocument) -> (ds: Vec<RuntimeObjectDescriptor>)
    ensures
        descriptors_model(ds@) == Seq::new(stage.view().objects.len(), |i: int| compiled_object(stage.view().objects[i])),
{
    let ghost sv = stage.view();
    let mut ds: Vec<RuntimeObjectDescriptor> = Vec::new();
    let mut i: usize = 0;
    while i < stage.objects.len()
        invariant
            sv == stage.view(),
            i <= stage.objects@.len(),
            ds@.len() == i,
            forall|j: int| 0 <= j < i ==> #[trigger] descriptors_model(ds@)[j] == compiled_object(sv.objects[j]),
        decreases stage.objects@.len() - i,
    {
        let object = &stage.objects[i];
        let mut ms: Vec<(String, JsonValue)> = Vec::new();
        ms.push(entry("object", kind_json(&object.object)));
        ms.push(entry("position", hex_json(object.position)));
        ms.push(entry("properties", json_clone(&object.properties)));
        let properties = object_of(ms);
        assert(members_model_of(ms@) =~= runtime_properties(sv.objects[i as int])->Object_0);
        let type_id = object.object.runtime_type();
        proof {
            lemma_runtime_type(object.object);
        }
        let ghost before = ds@;
        let d = RuntimeObjectDescriptor { id: object.id.clone(), type_id, properties };
        let ghost dm = descriptor_model(d.id.view(), d.type_id.view(), model(d.properties));
        assert(dm == compiled_object(sv.objects[i as int]));
        ds.push(d);
        assert(descriptors_model(ds@) =~= descriptors_model(before).push(dm));
        i = i + 1;
    }
    assert(descriptors_model(ds@) =~= Seq::new(sv.objects.len(), |i: int| compiled_object(sv.objects[i])));
    ds
}

/// Finds the first problem among a Stage's objects (see `objects_problem`).
fn check_objects(stage: &StageDocument) -> (r: Result<(), String>)
    ensures
        match objects_problem(stage.view().objects, stage.coordinate_space, stage.view().objects.len()) {
            Some(m) => r matches Err(e) && e@ == m,
            None => r is Ok,
        },
{
    let ghost sv = stage.view();
    let ghost os = sv.objects;
    let space = &stage.coordinate_space;
    let n = stage.objects.len();
    let mut i: usize = 0;
    while i < n
        invariant
            sv == stage.view(),
            os == sv.objects,
            *space == stage.coordinate_space,
            n == os.len(),
            i <= n,
            objects_problem(os, *space, i as nat) is None,
        decreases n - i,
    {
        let mut duplicate = false;
        let mut j: usize = 0;
        while j < i
            invariant
                sv == stage.view(),
                os == sv.objects,
                n == os.len(),
                j <= i < n,
                duplicate == (exists|k: int| 0 <= k < j && (#[trigger] os[k]).id == os[i as int].id),
            decreases i - j,
        {
            if stage.objects[j].id.same(&stage.objects[i].id) {
                duplicate = true;
            }
            proof {
                if duplicate && !(exists|k: int| 0 <= k < j && (#[trigger] os[k]).id == os[i as int].id) {
                    assert(os[j as int].id == os[i as int].id);
                }
            }
            j = j + 1;
        }
        if duplicate {
            let mut m = string_of("duplicate Stage object id: ");
            push_str(&mut m, stage.objects[i].id.as_str());
            proof {
                assert(os[i as int].id == stage.objects@[i as int].id.view());
                assert(object_problem(os, *space, i as int) == Some(m@));
                assert(objects_problem(os, *space, (i + 1) as nat) == Some(m@));
                lemma_problem_stays(os, *space, (i + 1) as nat, n as nat);
                assert(os.len() == n as nat);
                assert(objects_problem(os, *space, os.len()) == Some(m@));
            }
            return Err(m);
        }
        if !stage_position_in_bounds(space, stage.objects[i].position) {
            let mut m = string_of("Stage object ");
            push_str(&mut m, stage.objects[i].id.as_str());
            push_str(&mut m, " is outside the coordinate-space bounds");
            proof {
                assert(os[i as int].id == stage.objects@[i as int].id.view());
                assert(os[i as int].position == stage.objects@[i as int].position);
                assert(object_problem(os, *space, i as int) == Some(m@));
                assert(objects_problem(os, *space, (i + 1) as nat) == Some(m@));
                lemma_problem_stays(os, *space, (i + 1) as nat, n as nat);
                assert(os.len() == n as nat);
                assert(objects_problem(os, *space, os.len()) == Some(m@));
            }
            return Err(m);
        }
        i = i + 1;
    }
    Ok(())
}

/// What compiling a Stage document gives: a document of another type is refused; the
/// payload must read back as a Stage with no `stage_problem` and an artifact identifier
/// can be made from the document's; then the artifact `artifact.<document id>` of the
/// Stage artifact type, compiler version 1, the document's content hash as source hash,
/// and `artifact_payload` as payload.
pub open spec fn stage_compiles(document: EnvelopeView, r: Result<ArtifactEnvelope, ContentError>) -> bool {
    if document.type_id != STAGE_DOCUMENT_TYPE@ {
        r matches Err(ContentError::InvalidDocument(m)) && m@ == wrong_stage_type_message(document.type_id)
    } else {
        match stage_decode(document.payload) {
            Err(m) => r matches Err(ContentError::Serialization(e)) && e@ == m,
            Ok(sv) => match stage_problem(sv) {
                Some(m) => r matches Err(ContentError::InvalidDocument(e)) && e@ == m,
                None => match identifier_result(artifact_id_text(document.id)) {
                    Err(ie) => r matches Err(ContentError::InvalidDocument(e)) && e@ == id_error_message(ie),
                    Ok(_) => r matches Ok(a) && a.view() == (ArtifactView {
                        id: artifact_id_text(document.id),
                        artifact_type: STAGE_ARTIFACT_TYPE@,
                        source_document: document.id,
                        compiler_version: 1,
                        source_hash: content_hash_of(document),
                        payload: artifact_payload(sv),
                        artifact_hash: artifact_hash_of(a),
                    }),
                },
            },
        }
    }
}

impl DocumentCompiler for StageCompiler {
    open spec fn source(&self) -> Seq<char> {
        STAGE_DOCUMENT_TYPE@
    }

    open spec fn compiles(&self, document: EnvelopeView, context: CompileContext, result: Result<ArtifactEnvelope, ContentError>) -> bool {
        stage_compiles(document, result)
    }

    fn id(&self) -> &'static str {
        "tactical.stage.compiler"
    }

    fn source_type(&self) -> (t: EngineTypeId)
        ensures
            t.view() == STAGE_DOCUMENT_TYPE@,
    {
        proof {
            reveal_strlit("tactical.stage.document");
        }
        type_id_of(STAGE_DOCUMENT_TYPE)
    }

    fn artifact_type(&self) -> (t: EngineTypeId)
        ensures
            t.view() == STAGE_ARTIFACT_TYPE@,
    {
        proof {
            reveal_strlit("tactical.stage.artifact");
        }
        type_id_of(STAGE_ARTIFACT_TYPE)
    }

    /// Compiles a Stage document: reads it back from the envelope, refuses it when
    /// `stage_problem` finds something, and otherwise produces the artifact
    /// `artifact.<document id>` of the Stage artifact type, compiler version 1, the
    /// document's content hash as source hash, and `artifact_payload` as payload.
    #[verifier::rlimit(40)]
    fn compile(&self, document: &DocumentEnvelope, context: &CompileContext) -> (r: Result<ArtifactEnvelope, ContentError>)
        ensures
            stage_compiles(document.view(), r),
    {
        let stage = StageDocument::from_envelope(document)?;
        let ghost sv = stage.view();
        if is_blank(stage.name.as_str()) {
            return Err(ContentError::InvalidDocument(string_of("stage name cannot be empty")));
        }
        if grid_dimensions_invalid(&stage.coordinate_space) {
            return Err(ContentError::InvalidDocument(string_of("grid Stage dimensions must be greater than zero")));
        }
        match check_objects(&stage) {
            Ok(()) => {},
            Err(m) => {
                return Err(ContentError::InvalidDocument(m));
            },
        }
        let objects = runtime_descriptors(&stage);
        let metadata = metadata_json(&stage);
        let source_hash = document.content_hash()?;
        let mut id_text = string_of("artifact.");
        push_str(&mut id_text, document.header.id.as_str());
        proof {
            crate::content::lemma_view_id(*document);
        }
        let id = match ArtifactId::new(id_text.as_str()) {
            Ok(id) => id,
            Err(e) => {
                return Err(ContentError::InvalidDocument(id_error(e)));
            },
        };
        let payload = StageArtifactPayload { objects, metadata };
        let json = payload.to_json();
        assert(model(json) == artifact_payload(sv));
        ArtifactEnvelope::new(id, self.artifact_type(), document.header.id.clone(), 1, source_hash, json)
    }
}

} // verus!
