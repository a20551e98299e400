use guiyi_engine::asset::{AssetEntry, AssetManifest, ASSET_DEPENDENCY_NOT_FOUND, ASSET_SLOT_UNBOUND};
use guiyi_engine::authoring::AuthoringProject;
use guiyi_engine::command::builtin::{register_builtin_document_commands, DocumentCommand};
use guiyi_engine::command::input::member;
use guiyi_engine::command::{CommandContext, CommandExecutor, CommandRegistry, CommandRequest};
use guiyi_engine::content::{ArtifactEnvelope, ContentReference, DocumentEnvelope, DocumentHeader, DocumentStore};
use guiyi_engine::deterministic_hash;
use guiyi_engine::ids::{ArtifactId, AssetId, AssetSlotId, DocumentId, EngineTypeId, ObjectId, StageInstanceId};
use guiyi_engine::json::{json_equal, Dyadic, JsonNumber, JsonValue, NumberRepr};
use guiyi_engine::permissions::PermissionSet;
use guiyi_engine::catalog::ToolCatalog;
use guiyi_engine::project::{plan_persist, slug, validate_store, REFERENCE_NOT_FOUND, STAGE_PARSE_FAILED};
use guiyi_engine::project_path::ProjectPath;
use guiyi_engine::query::QueryRegistry;
use guiyi_engine::tactical::{register_project_commands, register_project_queries};
use guiyi_engine::runtime::{
    tactical_marker, validate_stage_artifact, RuntimeError, StageRuntimeManager, TacticalMarker,
    RUNTIME_ARTIFACT_INTEGRITY_FAILED, RUNTIME_ARTIFACT_PAYLOAD_INVALID, RUNTIME_ARTIFACT_TYPE_MISMATCH,
    RUNTIME_ARTIFACT_VERSION_UNSUPPORTED, RUNTIME_OBJECT_ID_DUPLICATE, RUNTIME_OBJECT_INVALID,
    RUNTIME_STAGE_NOT_LOADED, STAGE_RUNTIME_ARTIFACT_TYPE, STAGE_RUNTIME_COMPILER_VERSION,
};
use guiyi_engine::stage::{HexCoord, StageDocument, StageObject, StageObjectKind};

fn binary_parts(f: f64) -> Dyadic {
    if f == 0.0 {
        return Dyadic { mantissa: 0, exponent: 0 };
    }
    let bits = f.to_bits();
    let exp = ((bits >> 52) & 0x7ff) as i32;
    let frac = bits & ((1u64 << 52) - 1);
    let (m, e) = if exp == 0 { (frac, -1074) } else { (frac | (1u64 << 52), exp - 1075) };
    let m = m as i64;
    Dyadic { mantissa: if bits >> 63 == 1 { -m } else { m }, exponent: e }
}

fn number_from(n: &serde_json::Number) -> JsonNumber {
    if let Some(u) = n.as_u64() {
        let approx = if u <= i64::MAX as u64 {
            Dyadic { mantissa: u as i64, exponent: 0 }
        } else {
            Dyadic { mantissa: (u >> 1) as i64, exponent: 1 }
        };
        JsonNumber { repr: NumberRepr::PosInt(u), approx, text: u.to_string(), json_text: u.to_string() }
    } else if let Some(i) = n.as_i64() {
        JsonNumber {
            repr: NumberRepr::NegInt(i),
            approx: Dyadic { mantissa: i, exponent: 0 },
            text: i.to_string(),
            json_text: i.to_string(),
        }
    } else {
        let f = n.as_f64().unwrap();
        JsonNumber {
            repr: NumberRepr::Float(binary_parts(f)),
            approx: binary_parts(f),
            text: format!("{}", f),
            json_text: n.to_string(),
        }
    }
}

fn value_from(v: &serde_json::Value) -> JsonValue {
    match v {
        serde_json::Value::Null => JsonValue::Null,
        serde_json::Value::Bool(b) => JsonValue::Bool(*b),
        serde_json::Value::Number(n) => JsonValue::Number(number_from(n)),
        serde_json::Value::String(s) => JsonValue::String(s.clone()),
        serde_json::Value::Array(items) => JsonValue::Array(items.iter().map(value_from).collect()),
        serde_json::Value::Object(members) => {
            JsonValue::Object(members.iter().map(|(k, x)| (k.clone(), value_from(x))).collect())
        }
    }
}

/// A value written as JSON text.
fn parse(text: &str) -> JsonValue {
    value_from(&serde_json::from_str::<serde_json::Value>(text).unwrap())
}

fn lookup<'a>(v: &'a JsonValue, name: &str) -> Option<&'a JsonValue> {
    match v {
        JsonValue::Object(members) => member(members, name),
        _ => None,
    }
}

// ---------------------------------------------------------------------------
// runtime
// ---------------------------------------------------------------------------

fn descriptor_json(id: &str, type_id: &str, properties: &str) -> String {
    format!("{{\"id\": \"{id}\", \"type_id\": \"{type_id}\", \"properties\": {properties}}}")
}

fn artifact_with_payload(payload: &str) -> ArtifactEnvelope {
    ArtifactEnvelope::new(
        ArtifactId::from_static("artifact.stage.test"),
        EngineTypeId::from_static(STAGE_RUNTIME_ARTIFACT_TYPE),
        DocumentId::from_static("stage.test"),
        STAGE_RUNTIME_COMPILER_VERSION,
        deterministic_hash(b"test"),
        parse(payload),
    )
    .unwrap()
}

fn artifact_with_objects(objects: &[String]) -> ArtifactEnvelope {
    artifact_with_payload(&format!("{{\"objects\": [{}], \"metadata\": {{}}}}", objects.join(", ")))
}

fn runtime_artifact() -> ArtifactEnvelope {
    artifact_with_objects(&[descriptor_json("object.one", "test.object", "{}")])
}

fn assert_atomic_failure(manager: &mut StageRuntimeManager, artifact: &ArtifactEnvelope, expected_code: &str) {
    let active_before = manager.active_count();
    let error = manager.begin_load(artifact).unwrap_err();
    assert_eq!(error.code(), expected_code);
    assert_eq!(manager.active_count(), active_before);
}

/// Loads an artifact, standing in for the world with handles counted from `next`.
fn load(manager: &mut StageRuntimeManager, artifact: &ArtifactEnvelope, next: &mut u64) -> StageInstanceId {
    let (instance, payload) = manager.begin_load(artifact).unwrap();
    let mut entities = Vec::new();
    for _ in &payload.objects {
        *next += 1;
        entities.push(*next);
    }
    manager.finish_load(instance.clone(), artifact.id.clone(), entities);
    instance
}

#[test]
fn wrong_artifact_type_is_rejected_atomically() {
    let mut artifact = runtime_artifact();
    artifact.artifact_type = EngineTypeId::from_static("different.artifact");
    assert_atomic_failure(&mut StageRuntimeManager::new(), &artifact, RUNTIME_ARTIFACT_TYPE_MISMATCH);
}

#[test]
fn unsupported_version_is_rejected_atomically() {
    let mut artifact = runtime_artifact();
    artifact.compiler_version = STAGE_RUNTIME_COMPILER_VERSION + 1;
    assert_atomic_failure(&mut StageRuntimeManager::new(), &artifact, RUNTIME_ARTIFACT_VERSION_UNSUPPORTED);
}

#[test]
fn corrupted_payload_hash_is_rejected_atomically() {
    let mut artifact = runtime_artifact();
    if let JsonValue::Object(members) = &mut artifact.payload {
        for (key, value) in members.iter_mut() {
            if key == "metadata" {
                *value = parse("{\"corrupted\": true}");
            }
        }
    }
    assert_atomic_failure(&mut StageRuntimeManager::new(), &artifact, RUNTIME_ARTIFACT_INTEGRITY_FAILED);
}

#[test]
fn malformed_payload_is_rejected_after_valid_checksum() {
    let mut artifact = runtime_artifact();
    artifact.payload = parse("{\"objects\": \"not-an-array\", \"metadata\": {}}");
    artifact.refresh_artifact_hash().unwrap();
    assert_atomic_failure(&mut StageRuntimeManager::new(), &artifact, RUNTIME_ARTIFACT_PAYLOAD_INVALID);
}

#[test]
fn duplicate_object_ids_are_rejected_atomically() {
    let artifact = artifact_with_objects(&[
        descriptor_json("object.one", "test.object", "{}"),
        descriptor_json("object.one", "test.object", "{}"),
    ]);
    assert_atomic_failure(&mut StageRuntimeManager::new(), &artifact, RUNTIME_OBJECT_ID_DUPLICATE);
}

#[test]
fn invalid_late_object_leaves_no_partial_entities() {
    let artifact = artifact_with_objects(&[
        descriptor_json("object.valid", "test.object", "{}"),
        descriptor_json("object.invalid", "test.object", "[]"),
    ]);
    assert_atomic_failure(&mut StageRuntimeManager::new(), &artifact, RUNTIME_OBJECT_INVALID);
}

#[test]
fn tactical_object_requires_runtime_properties() {
    let artifact = artifact_with_objects(&[descriptor_json("actor.invalid", "tactical.actor", "{}")]);
    let error = StageRuntimeManager::new().begin_load(&artifact).unwrap_err();
    assert_eq!(error.code(), RUNTIME_OBJECT_INVALID);
    assert!(json_equal(lookup(&error.details(), "object_id").unwrap(), &parse("\"actor.invalid\"")));
}

#[test]
fn repeated_load_and_unload_does_not_leak_entities() {
    let mut manager = StageRuntimeManager::new();
    let mut next = 0u64;
    for _ in 0..100 {
        let id = load(&mut manager, &runtime_artifact(), &mut next);
        assert_eq!(manager.active_count(), 1);
        assert_eq!(manager.unload(&id).unwrap().len(), 1);
        assert_eq!(manager.active_count(), 0);
    }
    assert_eq!(manager.active_count(), 0);
}

#[test]
fn unload_does_not_touch_global_entities() {
    let mut manager = StageRuntimeManager::new();
    let global: u64 = 1;
    let mut next = global;
    let id = load(&mut manager, &runtime_artifact(), &mut next);
    let released = manager.unload(&id).unwrap();
    assert!(!released.contains(&global));
    assert_eq!(released, vec![2]);
}

#[test]
fn instances_are_numbered_and_unknown_instances_refused() {
    let mut manager = StageRuntimeManager::new();
    let mut next = 0u64;
    let first = load(&mut manager, &runtime_artifact(), &mut next);
    let second = load(&mut manager, &runtime_artifact(), &mut next);
    assert_eq!(first.as_str(), "stage-instance-00000001");
    assert_eq!(second.as_str(), "stage-instance-00000002");
    assert_eq!(manager.unload(&first).unwrap(), vec![1]);
    let error = manager.unload(&first).unwrap_err();
    assert_eq!(error.code(), RUNTIME_STAGE_NOT_LOADED);
    assert_eq!(error.message(), "stage is not loaded: stage-instance-00000001");
    assert_eq!(manager.active_count(), 1);
}

#[test]
fn runtime_failure_is_rendered_as_structured_json() {
    let error = RuntimeError::ArtifactTypeMismatch {
        expected: EngineTypeId::from_static("tactical.stage.artifact"),
        actual: EngineTypeId::from_static("different.artifact"),
    };
    assert_eq!(error.code(), "RUNTIME_ARTIFACT_TYPE_MISMATCH");
    assert!(json_equal(lookup(&error.details(), "actual_type").unwrap(), &parse("\"different.artifact\"")));
    assert_eq!(error.message(), "artifact type mismatch: expected tactical.stage.artifact, found different.artifact");
}

#[test]
fn valid_artifact_yields_its_objects() {
    let artifact = artifact_with_objects(&[
        descriptor_json("object.a", "test.object", "{\"x\": 1}"),
        descriptor_json("actor.b", "tactical.actor", "{\"position\": {}, \"object\": {}}"),
    ]);
    let payload = validate_stage_artifact(&artifact).unwrap();
    let ids: Vec<&str> = payload.objects.iter().map(|o| o.id.as_str()).collect();
    assert_eq!(ids, vec!["object.a", "actor.b"]);
    assert_eq!(artifact.artifact_hash, artifact.compute_artifact_hash().unwrap());
}

#[test]
fn actor_objects_receive_actor_marker() {
    assert_eq!(tactical_marker(&EngineTypeId::from_static("tactical.actor")), Some(TacticalMarker::Actor));
    assert_eq!(tactical_marker(&EngineTypeId::from_static("tactical.trigger")), Some(TacticalMarker::Trigger));
    assert_eq!(tactical_marker(&EngineTypeId::from_static("tactical.spawn_point")), None);
}

// ---------------------------------------------------------------------------
// assets
// ---------------------------------------------------------------------------

fn asset(id: &'static str, dependencies: &[&'static str]) -> AssetEntry {
    AssetEntry {
        id: AssetId::from_static(id),
        source: format!("assets/{id}.src"),
        runtime_path: format!("runtime/{id}.bin"),
        kind: "model".to_string(),
        dependencies: dependencies.iter().map(|d| AssetId::from_static(d)).collect(),
    }
}

#[test]
fn missing_slot_binding_is_an_error() {
    let mut manifest = AssetManifest::new();
    manifest.bind_slot(AssetSlotId::from_static("actor.hero.body"), AssetId::from_static("model.hero"));
    assert!(manifest.validate().has_errors());
}

#[test]
fn asset_validation_names_missing_dependencies_then_slots() {
    let mut manifest = AssetManifest::new();
    manifest.insert_asset(AssetId::from_static("model.b"), asset("model.b", &["texture.missing"]));
    manifest.insert_asset(AssetId::from_static("model.a"), asset("model.a", &["model.b"]));
    manifest.bind_slot(AssetSlotId::from_static("slot.one"), AssetId::from_static("model.gone"));
    manifest.bind_slot(AssetSlotId::from_static("slot.two"), AssetId::from_static("model.a"));
    let bag = manifest.validate();
    assert_eq!(bag.diagnostics.len(), 2);
    assert_eq!(bag.diagnostics[0].code, ASSET_DEPENDENCY_NOT_FOUND);
    assert_eq!(bag.diagnostics[0].message, "asset model.b depends on missing asset texture.missing");
    assert_eq!(bag.diagnostics[1].code, ASSET_SLOT_UNBOUND);
    assert_eq!(bag.diagnostics[1].message, "slot slot.one references missing asset model.gone");
    let keys: Vec<&str> = manifest.assets().iter().map(|(k, _)| k.as_str()).collect();
    assert_eq!(keys, vec!["model.a", "model.b"]);
}

#[test]
fn transitive_dependencies_follow_chains_and_cycles() {
    let mut manifest = AssetManifest::new();
    manifest.insert_asset(AssetId::from_static("a"), asset("a", &["b", "c"]));
    manifest.insert_asset(AssetId::from_static("b"), asset("b", &["d"]));
    manifest.insert_asset(AssetId::from_static("d"), asset("d", &["a"]));
    manifest.insert_asset(AssetId::from_static("e"), asset("e", &["a"]));
    let found: Vec<String> =
        manifest.transitive_dependencies(&AssetId::from_static("a")).iter().map(|x| x.as_str().to_string()).collect();
    assert_eq!(found, vec!["a", "b", "c", "d"]);
    let none = manifest.transitive_dependencies(&AssetId::from_static("c"));
    assert!(none.is_empty());
}

#[test]
fn rebinding_a_slot_replaces_its_asset() {
    let mut manifest = AssetManifest::new();
    manifest.insert_asset(AssetId::from_static("model.a"), asset("model.a", &[]));
    manifest.bind_slot(AssetSlotId::from_static("slot.one"), AssetId::from_static("model.gone"));
    manifest.bind_slot(AssetSlotId::from_static("slot.one"), AssetId::from_static("model.a"));
    assert_eq!(manifest.slots().len(), 1);
    assert!(!manifest.validate().has_errors());
    assert!(manifest.contains(&AssetId::from_static("model.a")));
}

// ---------------------------------------------------------------------------
// authoring
// ---------------------------------------------------------------------------

fn authoring_executor() -> CommandExecutor<DocumentCommand> {
    let mut registry = CommandRegistry::new();
    register_builtin_document_commands(&mut registry).unwrap();
    CommandExecutor::new(registry)
}

fn create(id: &str, dry_run: bool) -> CommandRequest {
    CommandRequest {
        command: guiyi_engine::ids::ToolId::from_static("document.create"),
        input: parse(&format!("{{\"id\": \"{id}\", \"type_id\": \"example\", \"display_name\": \"{id}\"}}")),
        dry_run,
    }
}

fn tester() -> CommandContext {
    CommandContext { actor: "test".to_string(), permissions: PermissionSet::content_author() }
}

#[test]
fn undo_and_redo_restore_command_states() {
    let mut executor = authoring_executor();
    let mut project = AuthoringProject::new();
    project.apply(&mut executor, create("doc.undo", false), &tester()).unwrap();
    assert_eq!(project.state.documents.len(), 1);
    assert!(project.undo());
    assert!(project.state.documents.is_empty());
    assert!(project.redo());
    assert_eq!(project.state.documents.len(), 1);
}

#[test]
fn history_ends_and_new_changes_clear_redo() {
    let mut executor = authoring_executor();
    let mut project = AuthoringProject::new();
    assert!(!project.undo());
    assert!(!project.redo());
    project.apply(&mut executor, create("doc.one", false), &tester()).unwrap();
    project.apply(&mut executor, create("doc.two", true), &tester()).unwrap();
    assert_eq!(project.state.documents.len(), 1);
    assert!(project.undo());
    project.apply(&mut executor, create("doc.three", false), &tester()).unwrap();
    assert!(!project.redo());
    assert!(project.apply(&mut executor, create("doc.three", false), &tester()).is_err());
    assert_eq!(project.state.documents.len(), 1);
    assert!(project.undo());
    assert!(!project.undo());
    assert!(project.state.documents.is_empty());
}

// ---------------------------------------------------------------------------
// project checks
// ---------------------------------------------------------------------------

#[test]
fn slug_lowercases_and_dashes() {
    assert_eq!(slug("My Game"), "my-game");
    assert_eq!(slug("  --Hello, World!--  "), "hello--world");
    assert_eq!(slug("***"), "game");
    assert_eq!(slug(""), "game");
    assert_eq!(slug("Tactics2"), "tactics2");
}

fn stage_envelope() -> DocumentEnvelope {
    let mut stage = StageDocument::new_hex(DocumentId::from_static("stage.demo"), "Demo", 4, 4);
    stage.objects.push(StageObject {
        id: ObjectId::from_static("spawn.player"),
        position: HexCoord::new(1, 1),
        object: StageObjectKind::SpawnPoint { profile: "player".to_string() },
        properties: parse("{}"),
    });
    stage.to_envelope().unwrap()
}

#[test]
fn store_validation_checks_stages_and_references() {
    let mut store = DocumentStore::new();
    store.insert(stage_envelope()).unwrap();
    assert!(validate_store(&store).diagnostics.is_empty());
    let mut broken = DocumentEnvelope {
        header: DocumentHeader {
            id: DocumentId::from_static("stage.broken"),
            type_id: EngineTypeId::from_static("tactical.stage.document"),
            schema_version: 1,
            display_name: "Broken".to_string(),
        },
        references: Vec::new(),
        payload: parse("[]"),
    };
    broken.references.push(ContentReference {
        source_object: None,
        target_document: DocumentId::from_static("doc.missing"),
        target_object: None,
        kind: "link".to_string(),
    });
    store.insert(broken).unwrap();
    let bag = validate_store(&store);
    assert_eq!(bag.diagnostics.len(), 2);
    assert_eq!(bag.diagnostics[0].code, STAGE_PARSE_FAILED);
    assert_eq!(bag.diagnostics[1].code, REFERENCE_NOT_FOUND);
    assert_eq!(bag.diagnostics[1].message, "link reference points to missing document doc.missing");
    assert_eq!(
        bag.diagnostics[1].location.as_ref().unwrap().document.as_ref().unwrap().as_str(),
        "stage.broken"
    );
}

#[test]
fn persist_plan_keeps_known_files_and_generates_new_ones() {
    let mut store = DocumentStore::new();
    store.insert(stage_envelope()).unwrap();
    let mut extra = stage_envelope();
    extra.header.id = DocumentId::from_static("doc.new");
    store.insert(extra).unwrap();
    let paths = vec![
        (DocumentId::from_static("doc.gone"), ProjectPath::new("content/gone.json").unwrap()),
        (DocumentId::from_static("stage.demo"), ProjectPath::new("content/stages/demo.stage.json").unwrap()),
    ];
    let listed = vec![
        ProjectPath::new("content/gone.json").unwrap(),
        ProjectPath::new("content/stages/demo.stage.json").unwrap(),
    ];
    let plan = plan_persist(&paths, &listed, &store).unwrap();
    let removed: Vec<&str> = plan.removed.iter().map(|p| p.as_str()).collect();
    assert_eq!(removed, vec!["content/gone.json"]);
    let writes: Vec<(&str, &str)> = plan.writes.iter().map(|(d, p)| (d.as_str(), p.as_str())).collect();
    assert_eq!(
        writes,
        vec![("doc.new", "content/generated/doc.new.json"), ("stage.demo", "content/stages/demo.stage.json")]
    );
    let manifest: Vec<&str> = plan.manifest_documents.iter().map(|p| p.as_str()).collect();
    assert_eq!(manifest, vec!["content/stages/demo.stage.json", "content/generated/doc.new.json"]);
}

#[test]
fn project_tools_combine_engine_and_tactical_commands() {
    let mut commands = CommandRegistry::new();
    register_project_commands(&mut commands).unwrap();
    let mut queries = QueryRegistry::new();
    register_project_queries(&mut queries).unwrap();
    let catalog = ToolCatalog::from_registries(&commands, &queries).unwrap();
    assert_eq!(catalog.list().len(), 14);
    assert!(catalog.get(&guiyi_engine::ids::ToolId::from_static("stage.create")).is_some());
    assert!(catalog.get(&guiyi_engine::ids::ToolId::from_static("document.create")).is_some());
}
