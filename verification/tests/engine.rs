use guiyi_engine::access::DocumentAccessPlan;
use guiyi_engine::agent::outcome::{AGENT_PERMISSION_DENIED, AGENT_TOOL_NOT_FOUND, AGENT_WORKING_SET_DENIED};
use guiyi_engine::agent::{
    transaction_was_applied, AgentDirective, AgentHost, AgentSession, ScriptedAgentDriver, SessionStatus,
    AGENT_BUDGET_EXCEEDED,
};
use guiyi_engine::catalog::{ToolCatalog, ToolKind, TOOL_CATALOG_ID_COLLISION};
use guiyi_engine::command::builtin::{
    register_builtin_document_commands, CreateDocumentCommand, DeleteDocumentCommand, DocumentCommand,
    SetDocumentFieldCommand,
};
use guiyi_engine::command::input::member;
use guiyi_engine::command::{
    CommandContext, CommandDescriptor, CommandError, CommandExecutor, CommandHandler, CommandRegistry,
    CommandRequest, EngineState, TransactionStatus,
};
use guiyi_engine::content::{
    ArtifactEnvelope, CompileContext, ContentError, ContentReference, DocumentCompiler, DocumentEnvelope,
    DocumentHeader, DocumentStore,
};
use guiyi_engine::diagnostics::DiagnosticBag;
use guiyi_engine::ids::{AgentSessionId, ArtifactId, DocumentId, EngineTypeId, ObjectId, ToolId, TransactionId};
use guiyi_engine::json::{json_clone, json_equal, Dyadic, JsonNumber, JsonValue, NumberRepr};
use guiyi_engine::permissions::{Permission, PermissionSet};
use guiyi_engine::pipeline::{
    BuildPipeline, BuildProfile, BuildSkipReason, CompilerRegistry, BUILD_COMPILER_MISSING,
    BUILD_DOCUMENT_AUTHORING_ONLY, BUILD_UNRESOLVED_REFERENCE,
};
use guiyi_engine::project_path::ProjectPath;
use guiyi_engine::protocol::{frame_line, unframe_line, ProtocolError, ToolCall, ToolResultStatus};
use guiyi_engine::query::builtin::{register_builtin_queries, BuiltinQuery};
use guiyi_engine::query::graph::ProjectGraph;
use guiyi_engine::query::{QueryDescriptor, QueryExecutor, QueryRegistry};
use guiyi_engine::stage::{validate_stage, HexCoord, StageDocument, StageObject, StageObjectKind};
use guiyi_engine::stage_compiler::StageCompiler;
use guiyi_engine::storage::{
    apply_order, rollback_plan, validate_plan, ProjectMutationKind, ProjectTransaction, RollbackStep, StorageOperationRecord,
    PROJECT_STORAGE_PLAN_INVALID,
};
use guiyi_engine::tactical::{register_tactical_commands, TacticalCommand};

fn float_parts(f: f64) -> Dyadic {
    if f == 0.0 {
        return Dyadic { mantissa: 0, exponent: 0 };
    }
    let bits = f.to_bits();
    let exp = ((bits >> 52) & 0x7ff) as i32;
    let frac = bits & ((1u64 << 52) - 1);
    let (m, e) = if exp == 0 { (frac, -1074) } else { (frac | (1u64 << 52), exp - 1075) };
    let m = m as i64;
    Dyadic { mantissa: if bits >> 63 == 1 { -m } else { m }, exponent: e }
}

fn number_value(n: &serde_json::Number) -> JsonNumber {
    if let Some(u) = n.as_u64() {
        let approx = if u <= i64::MAX as u64 {
            Dyadic { mantissa: u as i64, exponent: 0 }
        } else {
            Dyadic { mantissa: (u >> 1) as i64, exponent: 1 }
        };
        JsonNumber { repr: NumberRepr::PosInt(u), approx, text: u.to_string(), json_text: u.to_string() }
    } else if let Some(i) = n.as_i64() {
        JsonNumber {
            repr: NumberRepr::NegInt(i),
            approx: Dyadic { mantissa: i, exponent: 0 },
            text: i.to_string(),
            json_text: i.to_string(),
        }
    } else {
        let f = n.as_f64().unwrap();
        JsonNumber {
            repr: NumberRepr::Float(float_parts(f)),
            approx: float_parts(f),
            text: format!("{}", f),
            json_text: n.to_string(),
        }
    }
}

fn convert(v: &serde_json::Value) -> JsonValue {
    match v {
        serde_json::Value::Null => JsonValue::Null,
        serde_json::Value::Bool(b) => JsonValue::Bool(*b),
        serde_json::Value::Number(n) => JsonValue::Number(number_value(n)),
        serde_json::Value::String(s) => JsonValue::String(s.clone()),
        serde_json::Value::Array(items) => JsonValue::Array(items.iter().map(convert).collect()),
        serde_json::Value::Object(members) => {
            JsonValue::Object(members.iter().map(|(k, x)| (k.clone(), convert(x))).collect())
        }
    }
}

/// A value written as JSON text.
fn jv(text: &str) -> JsonValue {
    convert(&serde_json::from_str::<serde_json::Value>(text).unwrap())
}

fn get<'a>(v: &'a JsonValue, name: &str) -> Option<&'a JsonValue> {
    match v {
        JsonValue::Object(members) => member(members, name),
        _ => None,
    }
}

fn text_of(v: Option<&JsonValue>) -> Option<&str> {
    match v {
        Some(JsonValue::String(s)) => Some(s.as_str()),
        _ => None,
    }
}

fn error_code(output: &JsonValue) -> Option<&str> {
    text_of(get(output, "error").and_then(|e| get(e, "code")))
}

fn store_snapshot(store: &DocumentStore) -> Vec<(String, String)> {
    store.iter().iter().map(|(id, d)| (id.as_str().to_string(), d.to_json_text())).collect()
}

fn envelope(id: &str, type_id: &str, payload: &str) -> DocumentEnvelope {
    DocumentEnvelope {
        header: DocumentHeader {
            id: DocumentId::new(id).unwrap(),
            type_id: EngineTypeId::new(type_id).unwrap(),
            schema_version: 1,
            display_name: id.to_string(),
        },
        references: Vec::new(),
        payload: jv(payload),
    }
}

fn author() -> CommandContext {
    CommandContext { actor: "test-agent".to_string(), permissions: PermissionSet::content_author() }
}

fn document_executor() -> CommandExecutor<DocumentCommand> {
    let mut registry = CommandRegistry::new();
    register_builtin_document_commands(&mut registry).unwrap();
    CommandExecutor::new(registry)
}

fn create_request(id: &str) -> CommandRequest {
    CommandRequest {
        command: ToolId::from_static("document.create"),
        input: jv(&format!(
            "{{\"id\": \"{id}\", \"type_id\": \"example.document\", \"display_name\": \"{id}\"}}"
        )),
        dry_run: false,
    }
}

// ---------------------------------------------------------------------------
// commands
// ---------------------------------------------------------------------------

#[test]
fn dry_run_does_not_mutate_state() {
    let mut executor = document_executor();
    let mut state = EngineState::new();
    let report = executor
        .execute(
            CommandRequest {
                command: ToolId::from_static("document.create"),
                input: jv("{\"id\": \"doc.preview\", \"type_id\": \"example.document\", \"display_name\": \"Preview\"}"),
                dry_run: true,
            },
            &author(),
            &mut state,
        )
        .unwrap();
    assert_eq!(report.status, TransactionStatus::Previewed);
    assert!(state.documents.is_empty());
}

#[test]
fn failed_commands_are_atomic() {
    let mut executor = document_executor();
    let mut state = EngineState::new();
    executor.execute(create_request("doc.one"), &author(), &mut state).unwrap();
    let before = store_snapshot(&state.documents);
    let result = executor.execute(
        CommandRequest {
            command: ToolId::from_static("document.set_field"),
            input: jv("{\"document_id\": \"doc.one\", \"path\": [], \"value\": 3}"),
            dry_run: false,
        },
        &author(),
        &mut state,
    );
    assert!(result.is_err());
    assert_eq!(store_snapshot(&state.documents), before);
}

enum ScopedTestCommand {
    Builtin(DocumentCommand),
    CrossDocument,
    MultiDocument,
}

fn test_descriptor(id: &'static str, title: &str, description: &str) -> CommandDescriptor {
    CommandDescriptor {
        id: ToolId::from_static(id),
        title: title.to_string(),
        description: description.to_string(),
        input_schema: jv("{\"type\": \"object\"}"),
        output_schema: jv("{\"type\": \"object\"}"),
        required_permissions: PermissionSet::new(vec![Permission::EditContent]),
        side_effects: vec!["modifies_document".to_string()],
        related_tools: Vec::new(),
    }
}

impl CommandHandler for ScopedTestCommand {
    fn descriptor(&self) -> CommandDescriptor {
        match self {
            ScopedTestCommand::Builtin(c) => c.descriptor(),
            ScopedTestCommand::CrossDocument => test_descriptor("test.cross_document", "Cross document", "Test command"),
            ScopedTestCommand::MultiDocument => test_descriptor("test.multi", "Multi", "Multi-document test command"),
        }
    }

    fn document_access(&self, input: &JsonValue) -> Result<DocumentAccessPlan, CommandError> {
        match self {
            ScopedTestCommand::Builtin(c) => c.document_access(input),
            ScopedTestCommand::CrossDocument => Ok(DocumentAccessPlan::document(DocumentId::from_static("doc.a"))),
            ScopedTestCommand::MultiDocument => Ok(DocumentAccessPlan::documents(vec![
                DocumentId::from_static("stage.a"),
                DocumentId::from_static("stage.b"),
            ])),
        }
    }

    fn validate(&self, input: &JsonValue, state: &EngineState) -> DiagnosticBag {
        match self {
            ScopedTestCommand::Builtin(c) => c.validate(input, state),
            _ => DiagnosticBag::new(),
        }
    }

    fn apply(&self, input: &JsonValue, state: &mut EngineState) -> Result<JsonValue, CommandError> {
        match self {
            ScopedTestCommand::Builtin(c) => c.apply(input, state),
            ScopedTestCommand::CrossDocument => {
                let doc = state
                    .documents
                    .get_mut(&DocumentId::from_static("doc.b"))
                    .map_err(CommandError::Content)?;
                doc.payload = jv("{\"changed\": true}");
                Ok(jv("{}"))
            }
            ScopedTestCommand::MultiDocument => Ok(jv("{}")),
        }
    }

    fn input_schema(&self) -> guiyi_engine::schema::SchemaNode {
        match self {
            ScopedTestCommand::Builtin(c) => c.input_schema(),
            _ => guiyi_engine::schema::SchemaNode::object(vec![]),
        }
    }
}

#[test]
fn scoped_execution_rejects_actual_cross_document_effects_atomically() {
    let mut registry = CommandRegistry::new();
    registry.register(ScopedTestCommand::Builtin(DocumentCommand::Create(CreateDocumentCommand))).unwrap();
    registry.register(ScopedTestCommand::Builtin(DocumentCommand::Delete(DeleteDocumentCommand))).unwrap();
    registry.register(ScopedTestCommand::Builtin(DocumentCommand::SetField(SetDocumentFieldCommand))).unwrap();
    registry.register(ScopedTestCommand::CrossDocument).unwrap();
    let mut executor = CommandExecutor::new(registry);
    let mut state = EngineState::new();
    executor.execute(create_request("doc.a"), &author(), &mut state).unwrap();
    executor.execute(create_request("doc.b"), &author(), &mut state).unwrap();
    let before = store_snapshot(&state.documents);
    let allowed = vec![DocumentId::from_static("doc.a")];
    let result = executor.execute_scoped(
        CommandRequest { command: ToolId::from_static("test.cross_document"), input: jv("{}"), dry_run: false },
        &author(),
        &mut state,
        Some(&allowed),
    );
    assert!(matches!(result, Err(CommandError::WorkingSetDenied(_))));
    assert_eq!(store_snapshot(&state.documents), before);
}

#[test]
fn applied_commands_are_audited_in_sequence() {
    let mut executor = document_executor();
    let mut state = EngineState::new();
    let first = executor.execute(create_request("doc.one"), &author(), &mut state).unwrap();
    let second = executor.execute(create_request("doc.two"), &author(), &mut state).unwrap();
    assert_eq!(first.status, TransactionStatus::Applied);
    assert_eq!(first.transaction_id.as_str(), "tx-00000001");
    assert_eq!(second.transaction_id.as_str(), "tx-00000002");
    let log = executor.audit_log();
    assert_eq!(log.len(), 2);
    assert_eq!((log[0].sequence, log[1].sequence), (1, 2));
    assert_eq!(state.documents.len(), 2);
    assert_eq!(first.document_diffs.len(), 1);
}

#[test]
fn unknown_and_unpermitted_commands_are_refused() {
    let mut executor = document_executor();
    let mut state = EngineState::new();
    let missing = executor.execute(
        CommandRequest { command: ToolId::from_static("no.such"), input: jv("{}"), dry_run: false },
        &author(),
        &mut state,
    );
    assert!(matches!(missing, Err(CommandError::CommandNotFound(_))));
    let reader = CommandContext { actor: "reader".to_string(), permissions: PermissionSet::read_only() };
    let denied = executor.execute(create_request("doc.x"), &reader, &mut state);
    assert!(matches!(denied, Err(CommandError::PermissionDenied(_))));
    assert!(state.documents.is_empty());
    assert!(executor.audit_log().is_empty());
}

#[test]
fn set_field_writes_nested_members() {
    let mut executor = document_executor();
    let mut state = EngineState::new();
    let create = CommandRequest {
        command: ToolId::from_static("document.create"),
        input: jv("{\"id\": \"doc.one\", \"type_id\": \"example.document\", \"display_name\": \"One\", \"payload\": {}}"),
        dry_run: false,
    };
    executor.execute(create, &author(), &mut state).unwrap();
    executor
        .execute(
            CommandRequest {
                command: ToolId::from_static("document.set_field"),
                input: jv("{\"document_id\": \"doc.one\", \"path\": [\"a\", \"b\"], \"value\": 3}"),
                dry_run: false,
            },
            &author(),
            &mut state,
        )
        .unwrap();
    let doc = state.documents.get(&DocumentId::from_static("doc.one")).unwrap();
    assert!(json_equal(&doc.payload, &jv("{\"a\": {\"b\": 3}}")));
}

// ---------------------------------------------------------------------------
// content and queries
// ---------------------------------------------------------------------------

#[test]
fn store_rejects_duplicate_documents() {
    let mut store = DocumentStore::new();
    store.insert(envelope("doc.demo", "example.document", "{\"value\": 1}")).unwrap();
    assert!(matches!(
        store.insert(envelope("doc.demo", "example.document", "{\"value\": 1}")),
        Err(ContentError::DuplicateDocument(_))
    ));
}

#[test]
fn document_hash_changes_with_payload() {
    let first = envelope("doc.demo", "example.document", "{\"value\": 1}");
    let second = envelope("doc.demo", "example.document", "{\"value\": 2}");
    assert_ne!(first.content_hash().unwrap(), second.content_hash().unwrap());
}

#[test]
fn document_text_is_compact_json_in_field_order() {
    let doc = envelope("doc.demo", "example.document", "{\"value\": 1}");
    assert_eq!(
        doc.to_json_text(),
        "{\"header\":{\"id\":\"doc.demo\",\"type_id\":\"example.document\",\"schema_version\":1,\"display_name\":\"doc.demo\"},\"references\":[],\"payload\":{\"value\":1}}"
    );
    assert_eq!(doc.content_hash().unwrap(), guiyi_engine::deterministic_hash(doc.to_json_text().as_bytes()));
}

#[test]
fn store_keeps_documents_in_identifier_order() {
    let mut store = DocumentStore::new();
    store.insert(envelope("doc.c", "example", "{}")).unwrap();
    store.insert(envelope("doc.a", "example", "{}")).unwrap();
    store.insert(envelope("doc.b", "example", "{}")).unwrap();
    let ids: Vec<&str> = store.iter().iter().map(|(id, _)| id.as_str()).collect();
    assert_eq!(ids, vec!["doc.a", "doc.b", "doc.c"]);
    let removed = store.remove(&DocumentId::from_static("doc.b")).unwrap();
    assert_eq!(removed.header.id.as_str(), "doc.b");
    assert!(matches!(store.get(&DocumentId::from_static("doc.b")), Err(ContentError::DocumentNotFound(_))));
    assert_eq!(store.len(), 2);
}

#[test]
fn impact_follows_reverse_references() {
    let mut store = DocumentStore::new();
    for (id, target) in [("doc.a", None), ("doc.b", Some("doc.a")), ("doc.c", Some("doc.b"))] {
        let mut doc = envelope(id, "example", "{}");
        if let Some(value) = target {
            doc.references.push(ContentReference {
                source_object: None,
                target_document: DocumentId::new(value).unwrap(),
                target_object: None,
                kind: "test".to_string(),
            });
        }
        store.insert(doc).unwrap();
    }
    let graph = ProjectGraph::build(&store);
    let impact: Vec<String> = graph
        .impact(&DocumentId::from_static("doc.a"))
        .iter()
        .map(|d| d.as_str().to_string())
        .collect();
    assert!(impact.contains(&"doc.b".to_string()));
    assert!(impact.contains(&"doc.c".to_string()));
    assert!(!impact.contains(&"doc.a".to_string()));
}

// ---------------------------------------------------------------------------
// tactical stages
// ---------------------------------------------------------------------------

fn spawn(id: &'static str, q: i32, r: i32) -> StageObject {
    StageObject {
        id: ObjectId::from_static(id),
        position: HexCoord::new(q, r),
        object: StageObjectKind::SpawnPoint { profile: "player".to_string() },
        properties: jv("{}"),
    }
}

#[test]
fn stage_compiler_produces_runtime_objects() {
    let mut stage = StageDocument::new_hex(DocumentId::from_static("stage.demo"), "Demo", 8, 8);
    stage.objects.push(spawn("spawn.player", 1, 1));
    let context = CompileContext { project_root: ".".to_string(), profile: "test".to_string() };
    let artifact = StageCompiler.compile(&stage.to_envelope().unwrap(), &context).unwrap();
    match get(&artifact.payload, "objects") {
        Some(JsonValue::Array(objects)) => assert_eq!(objects.len(), 1),
        other => panic!("unexpected payload objects: {other:?}"),
    }
    assert_eq!(artifact.id.as_str(), "artifact.stage.demo");
    assert_eq!(artifact.artifact_type.as_str(), "tactical.stage.artifact");
}

#[test]
fn validator_reports_missing_spawn() {
    let stage = StageDocument::new_hex(DocumentId::from_static("stage.empty"), "Empty", 4, 4);
    assert_eq!(validate_stage(&stage).summary().warnings, 1);
}

#[test]
fn validator_rejects_out_of_bounds_objects() {
    let mut stage = StageDocument::new_hex(DocumentId::from_static("stage.bounds"), "Bounds", 4, 4);
    stage.objects.push(spawn("spawn.bad", 8, 8));
    assert!(validate_stage(&stage).has_errors());
}

#[test]
fn commands_create_a_valid_stage() {
    let mut registry: CommandRegistry<TacticalCommand> = CommandRegistry::new();
    register_tactical_commands(&mut registry).unwrap();
    let mut executor = CommandExecutor::new(registry);
    let mut state = EngineState::new();
    for (tool, input) in [
        ("stage.create", "{\"id\": \"stage.demo\", \"name\": \"Demo\", \"width\": 8, \"height\": 8}"),
        (
            "stage.create_spawn",
            "{\"stage_id\": \"stage.demo\", \"object_id\": \"spawn.player\", \"profile\": \"player\", \"q\": 1, \"r\": 1}",
        ),
    ] {
        executor
            .execute(
                CommandRequest { command: ToolId::new(tool).unwrap(), input: jv(input), dry_run: false },
                &author(),
                &mut state,
            )
            .unwrap();
    }
    let document = state.documents.get(&DocumentId::from_static("stage.demo")).unwrap();
    let stage = StageDocument::from_envelope(document).unwrap();
    assert!(!validate_stage(&stage).has_errors());
    assert_eq!(stage.objects.len(), 1);
}

#[test]
fn stage_json_round_trips() {
    let mut stage = StageDocument::new_hex(DocumentId::from_static("stage.trip"), "Trip", 5, 6);
    stage.objects.push(spawn("spawn.one", 2, -1));
    let encoded = stage.to_json();
    let decoded = StageDocument::from_json(&encoded).unwrap();
    assert_eq!(decoded.id.as_str(), "stage.trip");
    assert_eq!(decoded.name, "Trip");
    assert_eq!(decoded.objects.len(), 1);
    assert_eq!(decoded.objects[0].position, HexCoord::new(2, -1));
    assert!(json_equal(&decoded.to_json(), &encoded));
}

#[test]
fn stage_decoding_reports_the_wrong_document_type() {
    let doc = envelope("stage.x", "example.document", "{}");
    match StageDocument::from_envelope(&doc) {
        Err(ContentError::InvalidDocument(m)) => {
            assert_eq!(m, "expected tactical.stage.document, found example.document")
        }
        other => panic!("unexpected result: {other:?}"),
    }
}

// ---------------------------------------------------------------------------
// build pipeline
// ---------------------------------------------------------------------------

const BUILDABLE: &str = "test.buildable";
const AUTHORING_ONLY: &str = "test.authoring_only";

struct TestCompiler;

impl DocumentCompiler for TestCompiler {
    fn id(&self) -> &'static str {
        "test.compiler"
    }

    fn source_type(&self) -> EngineTypeId {
        EngineTypeId::from_static(BUILDABLE)
    }

    fn artifact_type(&self) -> EngineTypeId {
        EngineTypeId::from_static("test.artifact")
    }

    fn compile(&self, document: &DocumentEnvelope, _context: &CompileContext) -> Result<ArtifactEnvelope, ContentError> {
        if matches!(get(&document.payload, "fail"), Some(JsonValue::Bool(true))) {
            return Err(ContentError::InvalidDocument("injected compiler failure".to_string()));
        }
        ArtifactEnvelope::new(
            ArtifactId::new(&format!("artifact.{}", document.header.id.as_str())).unwrap(),
            self.artifact_type(),
            document.header.id.clone(),
            1,
            document.content_hash()?,
            json_clone(&document.payload),
        )
    }
}

fn build_context() -> CompileContext {
    CompileContext { project_root: ".".to_string(), profile: "test".to_string() }
}

fn test_compilers() -> CompilerRegistry<TestCompiler> {
    let mut registry = CompilerRegistry::new();
    registry.register(TestCompiler).unwrap();
    registry
}

#[test]
fn empty_build_succeeds() {
    let pipeline = BuildPipeline::new(CompilerRegistry::<TestCompiler>::new());
    let report = pipeline.build(&DocumentStore::new(), &build_context());
    assert!(report.succeeded());
    assert!(report.artifacts.is_empty());
}

#[test]
fn strict_build_rejects_missing_compiler() {
    let mut store = DocumentStore::new();
    store.insert(envelope("doc.missing", "test.uncompiled", "{}")).unwrap();
    let report = BuildPipeline::new(CompilerRegistry::<TestCompiler>::new()).build(&store, &build_context());
    assert!(!report.succeeded());
    assert!(report.artifacts.is_empty());
    assert_eq!(report.skipped_documents[0].reason, BuildSkipReason::MissingCompiler);
    assert_eq!(report.diagnostics.diagnostics[0].code, BUILD_COMPILER_MISSING);
}

#[test]
fn unresolved_reference_fails_before_compilation() {
    let mut source = envelope("doc.source", BUILDABLE, "{}");
    source.references.push(ContentReference {
        source_object: Some(ObjectId::from_static("object.source")),
        target_document: DocumentId::from_static("doc.missing"),
        target_object: None,
        kind: "test_reference".to_string(),
    });
    let mut store = DocumentStore::new();
    store.insert(source).unwrap();
    let report = BuildPipeline::new(test_compilers()).build(&store, &build_context());
    assert!(!report.succeeded());
    assert!(report.artifacts.is_empty());
    assert_eq!(report.diagnostics.diagnostics[0].code, BUILD_UNRESOLVED_REFERENCE);
}

#[test]
fn authoring_only_document_is_reported_without_failing() {
    let mut store = DocumentStore::new();
    store.insert(envelope("doc.notes", AUTHORING_ONLY, "{}")).unwrap();
    let profile = BuildProfile::default().with_authoring_only_type(EngineTypeId::from_static(AUTHORING_ONLY));
    let report = BuildPipeline::with_profile(CompilerRegistry::<TestCompiler>::new(), profile)
        .build(&store, &build_context());
    assert!(report.succeeded());
    assert!(report.artifacts.is_empty());
    assert_eq!(report.skipped_documents[0].reason, BuildSkipReason::AuthoringOnly);
    assert_eq!(report.diagnostics.diagnostics[0].code, BUILD_DOCUMENT_AUTHORING_ONLY);
}

#[test]
fn compiler_failure_withholds_all_artifacts() {
    let good = envelope("doc.good", BUILDABLE, "{}");
    let bad = envelope("doc.bad", BUILDABLE, "{\"fail\": true}");
    let mut store = DocumentStore::new();
    store.insert(good).unwrap();
    store.insert(bad).unwrap();
    let report = BuildPipeline::new(test_compilers()).build(&store, &build_context());
    assert!(!report.succeeded());
    assert!(report.artifacts.is_empty());
    assert!(report.skipped_documents.iter().any(|item| item.reason == BuildSkipReason::CompilerFailed));
    assert!(report.skipped_documents.iter().any(|item| item.reason == BuildSkipReason::BlockingDiagnostics));
}

#[test]
fn compatibility_mode_reports_missing_compiler_as_warning() {
    let mut store = DocumentStore::new();
    store.insert(envelope("doc.optional", "test.optional", "{}")).unwrap();
    let profile = BuildProfile { name: "compatibility".to_string(), strict: false, authoring_only_types: Vec::new() };
    let report = BuildPipeline::with_profile(CompilerRegistry::<TestCompiler>::new(), profile)
        .build(&store, &build_context());
    assert!(report.succeeded());
    assert!(report.artifacts.is_empty());
    assert_eq!(report.skipped_documents[0].reason, BuildSkipReason::MissingCompiler);
}

#[test]
fn successful_build_emits_one_artifact_per_document() {
    let mut store = DocumentStore::new();
    store.insert(envelope("doc.one", BUILDABLE, "{\"x\": 1}")).unwrap();
    store.insert(envelope("doc.two", BUILDABLE, "{}")).unwrap();
    let report = BuildPipeline::new(test_compilers()).build(&store, &build_context());
    assert!(report.succeeded());
    let ids: Vec<&str> = report.artifacts.iter().map(|a| a.id.as_str()).collect();
    assert_eq!(ids, vec!["artifact.doc.one", "artifact.doc.two"]);
    assert!(report.skipped_documents.is_empty());
}

// ---------------------------------------------------------------------------
// tool catalog
// ---------------------------------------------------------------------------

fn command_descriptor(id: &str) -> CommandDescriptor {
    CommandDescriptor {
        id: ToolId::new(id).unwrap(),
        title: "Command".to_string(),
        description: "test command".to_string(),
        input_schema: jv("{\"type\": \"object\"}"),
        output_schema: jv("{\"type\": \"object\"}"),
        required_permissions: PermissionSet::new(Vec::new()),
        side_effects: Vec::new(),
        related_tools: Vec::new(),
    }
}

fn query_descriptor(id: &str) -> QueryDescriptor {
    QueryDescriptor {
        id: ToolId::new(id).unwrap(),
        title: "Query".to_string(),
        description: "test query".to_string(),
        input_schema: jv("{\"type\": \"object\"}"),
        output_schema: jv("{\"type\": \"object\"}"),
        required_permissions: PermissionSet::new(Vec::new()),
        related_tools: Vec::new(),
    }
}

#[test]
fn catalog_combines_commands_and_queries_deterministically() {
    let mut commands = CommandRegistry::new();
    register_builtin_document_commands(&mut commands).unwrap();
    let mut queries = QueryRegistry::new();
    register_builtin_queries(&mut queries).unwrap();
    let catalog = ToolCatalog::from_registries(&commands, &queries).unwrap();
    assert!(catalog.get(&ToolId::from_static("document.create")).is_some());
    assert!(catalog.get(&ToolId::from_static("project.documents.list")).is_some());
    let ids: Vec<&str> = catalog.list().iter().map(|d| d.id.as_str()).collect();
    assert!(ids.windows(2).all(|pair| pair[0] < pair[1]));
}

#[test]
fn cross_kind_collision_is_rejected_without_overwrite() {
    let error = ToolCatalog::from_descriptors(vec![command_descriptor("shared.tool")], vec![query_descriptor("shared.tool")])
        .unwrap_err();
    assert_eq!(error.code, TOOL_CATALOG_ID_COLLISION);
    assert_eq!(error.tool_id.as_str(), "shared.tool");
    assert_eq!(error.existing_kind, ToolKind::Command);
    assert_eq!(error.incoming_kind, ToolKind::Query);
    assert!(error.message().contains("command"));
    assert!(error.message().contains("query"));
}

#[test]
fn same_kind_descriptor_collision_is_also_rejected() {
    let error = ToolCatalog::from_descriptors(
        vec![command_descriptor("duplicate.tool"), command_descriptor("duplicate.tool")],
        Vec::new(),
    )
    .unwrap_err();
    assert_eq!(error.code, TOOL_CATALOG_ID_COLLISION);
    assert_eq!(error.existing_kind, ToolKind::Command);
    assert_eq!(error.incoming_kind, ToolKind::Command);
}

// ---------------------------------------------------------------------------
// agent host
// ---------------------------------------------------------------------------

fn agent_host() -> AgentHost<DocumentCommand, BuiltinQuery> {
    let mut command_registry = CommandRegistry::new();
    register_builtin_document_commands(&mut command_registry).unwrap();
    let mut query_registry = QueryRegistry::new();
    register_builtin_queries(&mut query_registry).unwrap();
    let catalog = ToolCatalog::from_registries(&command_registry, &query_registry).unwrap();
    AgentHost::new(
        EngineState::new(),
        CommandExecutor::new(command_registry),
        QueryExecutor::new(query_registry),
        catalog,
    )
}

fn agent_session(permissions: PermissionSet) -> AgentSession {
    AgentSession::new(AgentSessionId::from_static("session.test"), "Test session", permissions)
}

fn list_call(id: &str) -> ToolCall {
    ToolCall { id: id.to_string(), tool: ToolId::from_static("project.documents.list"), input: jv("{}"), dry_run: false }
}

fn plain_document(id: &str) -> DocumentEnvelope {
    envelope(id, "example.document", "{}")
}

#[test]
fn permission_denial_is_structured_and_recorded() {
    let mut host = agent_host();
    let mut session = agent_session(PermissionSet::read_only());
    let result = host.execute(
        &mut session,
        ToolCall {
            id: "call-1".to_string(),
            tool: ToolId::from_static("document.create"),
            input: jv("{\"id\": \"doc.denied\", \"type_id\": \"example.document\", \"display_name\": \"Denied\"}"),
            dry_run: false,
        },
    );
    assert_eq!(result.status, ToolResultStatus::Rejected);
    assert_eq!(error_code(&result.output), Some(AGENT_PERMISSION_DENIED));
    assert_eq!(session.actions_used, 1);
    assert_eq!(session.actions.len(), 1);
    assert_eq!(session.status, SessionStatus::Running);
}

#[test]
fn working_set_blocks_reads_and_mutations_outside_the_set() {
    let mut host = agent_host();
    host.state.documents.insert(plain_document("stage.a")).unwrap();
    host.state.documents.insert(plain_document("stage.b")).unwrap();
    let mut session = agent_session(PermissionSet::content_author());
    session.working_set = vec![DocumentId::from_static("stage.a")];
    for (tool, input) in [
        ("project.document.get", "{\"document_id\": \"stage.b\"}"),
        ("document.set_field", "{\"document_id\": \"stage.b\", \"path\": [\"x\"], \"value\": 1}"),
        ("document.delete", "{\"document_id\": \"stage.b\"}"),
    ] {
        let result = host.execute(
            &mut session,
            ToolCall { id: format!("call-{tool}"), tool: ToolId::new(tool).unwrap(), input: jv(input), dry_run: false },
        );
        assert_eq!(result.status, ToolResultStatus::Rejected);
        assert_eq!(error_code(&result.output), Some(AGENT_WORKING_SET_DENIED));
    }
    assert!(host.state.documents.get(&DocumentId::from_static("stage.b")).is_ok());
    assert_eq!(session.actions.len(), 3);
}

#[test]
fn project_queries_only_see_working_set_documents() {
    let mut host = agent_host();
    host.state.documents.insert(plain_document("stage.a")).unwrap();
    host.state.documents.insert(plain_document("stage.b")).unwrap();
    let mut session = agent_session(PermissionSet::read_only());
    session.working_set = vec![DocumentId::from_static("stage.a")];
    let result = host.execute(&mut session, list_call("call-list"));
    assert_eq!(result.status, ToolResultStatus::Success);
    match &result.output {
        JsonValue::Array(values) => {
            assert_eq!(values.len(), 1);
            assert_eq!(text_of(get(&values[0], "id")), Some("stage.a"));
        }
        other => panic!("unexpected output: {other:?}"),
    }
}

#[test]
fn budget_is_enforced_and_budget_rejection_is_audited() {
    let mut host = agent_host();
    let mut session = agent_session(PermissionSet::read_only());
    session.budget.max_actions = 1;
    assert_eq!(host.execute(&mut session, list_call("call-1")).status, ToolResultStatus::Success);
    let rejected = host.execute(&mut session, list_call("call-2"));
    assert_eq!(rejected.status, ToolResultStatus::Rejected);
    assert_eq!(error_code(&rejected.output), Some(AGENT_BUDGET_EXCEEDED));
    assert_eq!(session.actions_used, 1);
    assert_eq!(session.actions.len(), 2);
    assert_eq!(session.status, SessionStatus::BudgetExceeded);
}

#[test]
fn driver_can_complete_after_exactly_maximum_actions() {
    let mut host = agent_host();
    let mut session = agent_session(PermissionSet::read_only());
    session.budget.max_actions = 1;
    let mut driver = ScriptedAgentDriver::new(vec![
        AgentDirective::Tool(list_call("call-1")),
        AgentDirective::Complete { summary: "done".to_string() },
    ]);
    host.run(&mut driver, &mut session).unwrap();
    assert_eq!(session.actions_used, 1);
    assert_eq!(session.status, SessionStatus::Completed);
    assert_eq!(session.final_summary.as_deref(), Some("done"));
}

#[test]
fn unknown_tools_are_rejected_recorded_and_do_not_stop_the_session() {
    let mut host = agent_host();
    let mut session = agent_session(PermissionSet::read_only());
    let result = host.execute(
        &mut session,
        ToolCall { id: "call-missing".to_string(), tool: ToolId::from_static("missing.tool"), input: jv("{}"), dry_run: false },
    );
    assert_eq!(result.status, ToolResultStatus::Rejected);
    assert_eq!(error_code(&result.output), Some(AGENT_TOOL_NOT_FOUND));
    assert_eq!(session.actions.len(), 1);
    assert_eq!(session.status, SessionStatus::Running);
    let following = host.execute(&mut session, list_call("call-after"));
    assert_eq!(following.status, ToolResultStatus::Success);
    assert_eq!(session.actions.len(), 2);
}

#[test]
fn multi_document_access_requires_every_document() {
    let mut commands = CommandRegistry::new();
    commands.register(ScopedTestCommand::MultiDocument).unwrap();
    let queries: QueryRegistry<BuiltinQuery> = QueryRegistry::new();
    let catalog = ToolCatalog::from_registries(&commands, &queries).unwrap();
    let mut host = AgentHost::new(EngineState::new(), CommandExecutor::new(commands), QueryExecutor::new(queries), catalog);
    let mut session = agent_session(PermissionSet::new(vec![Permission::EditContent]));
    session.working_set = vec![DocumentId::from_static("stage.a")];
    let result = host.execute(
        &mut session,
        ToolCall { id: "call-multi".to_string(), tool: ToolId::from_static("test.multi"), input: jv("{}"), dry_run: false },
    );
    assert_eq!(result.status, ToolResultStatus::Rejected);
    assert_eq!(error_code(&result.output), Some(AGENT_WORKING_SET_DENIED));
}

#[test]
fn scripted_agent_creates_and_queries_a_document() {
    let mut host = agent_host();
    let mut session = agent_session(PermissionSet::content_author());
    let mut driver = ScriptedAgentDriver::new(vec![
        AgentDirective::Tool(ToolCall {
            id: "call-1".to_string(),
            tool: ToolId::from_static("document.create"),
            input: jv("{\"id\": \"doc.agent\", \"type_id\": \"example.document\", \"display_name\": \"Agent document\"}"),
            dry_run: false,
        }),
        AgentDirective::Tool(list_call("call-2")),
        AgentDirective::Complete { summary: "Created and checked the document".to_string() },
    ]);
    host.run(&mut driver, &mut session).unwrap();
    assert_eq!(session.status, SessionStatus::Completed);
    assert_eq!(host.state.documents.len(), 1);
    assert_eq!(session.actions.len(), 2);
    assert!(transaction_was_applied(&session.actions[0].result));
    assert!(!transaction_was_applied(&session.actions[1].result));
}

#[test]
fn malformed_command_input_rejected_before_access_planning() {
    let mut host = agent_host();
    let mut session = agent_session(PermissionSet::content_author());
    let result = host.execute(
        &mut session,
        ToolCall {
            id: "call-malformed".to_string(),
            tool: ToolId::from_static("document.create"),
            input: jv("{\"missing_required\": true}"),
            dry_run: false,
        },
    );
    assert_eq!(result.status, ToolResultStatus::Rejected);
    assert_eq!(error_code(&result.output), Some("COMMAND_VALIDATION_FAILED"));
    assert!(!result.diagnostics.is_empty());
    let following = host.execute(&mut session, list_call("call-after"));
    assert_eq!(following.status, ToolResultStatus::Success);
}

#[test]
fn exhausted_script_fails_the_run() {
    let mut host = agent_host();
    let mut session = agent_session(PermissionSet::read_only());
    let mut driver = ScriptedAgentDriver::new(vec![AgentDirective::Tool(list_call("call-1"))]);
    let error = host.run(&mut driver, &mut session).unwrap_err();
    assert_eq!(error.message(), "agent driver failed: script exhausted without completion");
    assert_eq!(session.actions.len(), 1);
}

// ---------------------------------------------------------------------------
// storage plans and protocol lines
// ---------------------------------------------------------------------------

#[test]
fn duplicate_targets_return_a_structured_plan_error() {
    let mut transaction = ProjectTransaction::new(
        TransactionId::from_static("duplicate"),
        AgentSessionId::from_static("session.storage-test"),
        "storage-test",
        jv("{}"),
    );
    transaction.write(ProjectPath::new("content/a.json").unwrap(), b"one".to_vec());
    transaction.write(ProjectPath::new("content/a.json").unwrap(), b"two".to_vec());
    let error = validate_plan(&transaction).unwrap_err();
    assert_eq!(error.code, PROJECT_STORAGE_PLAN_INVALID);
    assert_eq!(error.operation, "validate_plan");
    assert_eq!(error.path.unwrap().as_str(), "content/a.json");
}

#[test]
fn distinct_targets_form_a_valid_plan() {
    let mut transaction = ProjectTransaction::new(
        TransactionId::from_static("distinct"),
        AgentSessionId::from_static("session.storage-test"),
        "storage-test",
        jv("{}"),
    );
    assert!(validate_plan(&transaction).is_err());
    transaction.write(ProjectPath::new("content/a.json").unwrap(), b"one".to_vec());
    transaction.delete(ProjectPath::new("content/b.json").unwrap());
    assert!(validate_plan(&transaction).is_ok());
    assert_eq!(transaction.operations().len(), 2);
}

#[test]
fn tool_calls_round_trip_as_one_line() {
    let text = "{\"dry_run\":false,\"id\":\"call-1\",\"input\":{},\"tool\":\"project.documents.list\"}".to_string();
    let parsed: serde_json::Value = serde_json::from_str(&text).unwrap();
    assert_eq!(serde_json::to_string(&parsed).unwrap(), text);
    let framed = frame_line(text.clone()).unwrap();
    assert!(!framed.contains('\n'));
    assert_eq!(unframe_line(&format!("{framed}\n")), text);
    assert!(matches!(frame_line("a\nb".to_string()), Err(ProtocolError::EmbeddedNewline)));
}

// ---------------------------------------------------------------------------
// routing, registration and run steps
// ---------------------------------------------------------------------------

#[test]
fn working_set_refusal_names_the_documents_outside() {
    let mut registry = CommandRegistry::new();
    registry.register(ScopedTestCommand::Builtin(DocumentCommand::Create(CreateDocumentCommand))).unwrap();
    registry.register(ScopedTestCommand::CrossDocument).unwrap();
    let mut executor = CommandExecutor::new(registry);
    let mut state = EngineState::new();
    executor.execute(create_request("doc.a"), &author(), &mut state).unwrap();
    executor.execute(create_request("doc.b"), &author(), &mut state).unwrap();
    let audited = executor.audit_log().len();
    let allowed = vec![DocumentId::from_static("doc.a")];
    let result = executor.execute_scoped(
        CommandRequest { command: ToolId::from_static("test.cross_document"), input: jv("{}"), dry_run: false },
        &author(),
        &mut state,
        Some(&allowed),
    );
    match result {
        Err(CommandError::WorkingSetDenied(ids)) => {
            assert_eq!(ids.len(), 1);
            assert_eq!(ids[0].as_str(), "doc.b");
        }
        other => panic!("unexpected result: {other:?}"),
    }
    assert_eq!(executor.audit_log().len(), audited);
}

#[test]
fn registering_builtin_commands_twice_is_refused() {
    let mut registry = CommandRegistry::new();
    register_builtin_document_commands(&mut registry).unwrap();
    let ids: Vec<String> = registry.descriptors().iter().map(|d| d.id.as_str().to_string()).collect();
    assert_eq!(ids, vec!["document.create", "document.delete", "document.set_field"]);
    match register_builtin_document_commands(&mut registry) {
        Err(CommandError::DuplicateCommand(id)) => assert_eq!(id.as_str(), "document.create"),
        other => panic!("unexpected result: {other:?}"),
    }
    assert_eq!(registry.descriptors().len(), 3);
}

#[test]
fn registering_builtin_queries_twice_is_refused() {
    let mut registry = QueryRegistry::new();
    register_builtin_queries(&mut registry).unwrap();
    let ids: Vec<String> = registry.descriptors().iter().map(|d| d.id.as_str().to_string()).collect();
    assert_eq!(
        ids,
        vec!["project.document.get", "project.documents.list", "project.impact.analyze", "project.references.find"]
    );
    assert!(register_builtin_queries(&mut registry).is_err());
    assert_eq!(registry.descriptors().len(), 4);
}

#[test]
fn the_catalog_of_the_builtin_registries_lists_every_tool() {
    let host = agent_host();
    let ids: Vec<&str> = host.catalog().list().iter().map(|t| t.id.as_str()).collect();
    assert_eq!(
        ids,
        vec![
            "document.create",
            "document.delete",
            "document.set_field",
            "project.document.get",
            "project.documents.list",
            "project.impact.analyze",
            "project.references.find",
        ]
    );
    let create = host.catalog().get(&ToolId::from_static("document.create")).unwrap();
    assert_eq!(create.kind, ToolKind::Command);
    assert!(create.required_permissions.contains(Permission::EditContent));
}

#[test]
fn compiler_registry_routes_by_source_type() {
    let registry = test_compilers();
    assert!(registry.handles(&EngineTypeId::from_static(BUILDABLE)));
    assert!(!registry.handles(&EngineTypeId::from_static(AUTHORING_ONLY)));
    let artifact = registry.compile(&envelope("doc.one", BUILDABLE, "{}"), &build_context()).unwrap();
    assert_eq!(artifact.id.as_str(), "artifact.doc.one");
    match registry.compile(&envelope("doc.two", AUTHORING_ONLY, "{}"), &build_context()) {
        Err(ContentError::CompilerNotFound(t)) => assert_eq!(t.as_str(), AUTHORING_ONLY),
        other => panic!("unexpected result: {other:?}"),
    }
    let mut again = test_compilers();
    assert!(matches!(again.register(TestCompiler), Err(ContentError::DuplicateCompiler(_))));
}

#[test]
fn step_complete_and_stop_end_the_run_with_their_text() {
    let mut host = agent_host();
    let mut session = agent_session(PermissionSet::read_only());
    session.status = SessionStatus::Running;
    let mut last = None;
    let out = host.step(&mut session, AgentDirective::Complete { summary: "done".to_string() }, &mut last);
    assert!(matches!(out, Some(Ok(()))));
    assert_eq!(session.status, SessionStatus::Completed);
    assert_eq!(session.final_summary.as_deref(), Some("done"));
    assert_eq!(session.actions_used, 0);

    let mut session = agent_session(PermissionSet::read_only());
    session.status = SessionStatus::Running;
    let out = host.step(&mut session, AgentDirective::Stop { reason: "halt".to_string() }, &mut last);
    assert!(matches!(out, Some(Ok(()))));
    assert_eq!(session.status, SessionStatus::Stopped);
    assert_eq!(session.final_summary.as_deref(), Some("halt"));
    assert!(last.is_none());
}

#[test]
fn step_tool_call_is_executed_counted_and_kept() {
    let mut host = agent_host();
    let mut session = agent_session(PermissionSet::read_only());
    session.status = SessionStatus::Running;
    session.budget.max_actions = 1;
    let mut last = None;
    let out = host.step(&mut session, AgentDirective::Tool(list_call("call-1")), &mut last);
    assert!(out.is_none());
    assert_eq!(session.actions_used, 1);
    assert_eq!(session.actions.len(), 1);
    assert_eq!(last.as_ref().map(|r| r.call_id.as_str()), Some("call-1"));
    let out = host.step(&mut session, AgentDirective::Tool(list_call("call-2")), &mut last);
    assert!(matches!(out, Some(Err(_))));
    assert_eq!(session.status, SessionStatus::BudgetExceeded);
    assert_eq!(session.actions_used, 1);
    assert_eq!(session.actions.len(), 2);
}

#[test]
fn execute_call_dispatches_without_budget_or_record() {
    let mut host = agent_host();
    let mut session = agent_session(PermissionSet::content_author());
    session.budget.max_actions = 0;
    let result = host
        .execute_call(
            &session,
            ToolCall {
                id: "call-1".to_string(),
                tool: ToolId::from_static("document.create"),
                input: jv("{\"id\": \"doc.one\", \"type_id\": \"example.document\", \"display_name\": \"One\"}"),
                dry_run: false,
            },
        )
        .unwrap();
    assert_eq!(result.status, ToolResultStatus::Success);
    assert!(transaction_was_applied(&result));
    assert!(host.state.documents.get(&DocumentId::from_static("doc.one")).is_ok());
    assert_eq!(session.actions.len(), 0);
    assert_eq!(session.actions_used, 0);
}

#[test]
fn restricted_query_sees_only_working_set_documents() {
    let mut host = agent_host();
    host.state.documents.insert(plain_document("stage.a")).unwrap();
    host.state.documents.insert(plain_document("stage.b")).unwrap();
    let mut session = agent_session(PermissionSet::read_only());
    session.working_set = vec![DocumentId::from_static("stage.a")];
    let result = host.execute_call(&session, list_call("call-list")).unwrap();
    assert_eq!(result.status, ToolResultStatus::Success);
    match &result.output {
        JsonValue::Array(items) => {
            assert_eq!(items.len(), 1);
            assert_eq!(text_of(get(&items[0], "id")), Some("stage.a"));
        }
        other => panic!("unexpected output: {other:?}"),
    }
}

fn record(index: usize, path: &str, before: Option<&str>, manifest: bool) -> StorageOperationRecord {
    StorageOperationRecord {
        index,
        kind: ProjectMutationKind::Write,
        path: ProjectPath::new(path).unwrap(),
        existed_before: before.is_some(),
        before_snapshot: before.map(|s| ProjectPath::new(s).unwrap()),
        after_snapshot: Some(ProjectPath::new(&format!("after/{index:04}.bin")).unwrap()),
        manifest,
    }
}

#[test]
fn rollback_undoes_the_last_change_first_and_removes_new_files() {
    let records = vec![
        record(0, "content/a.json", Some("before/0000.bin"), false),
        record(1, "project.json", Some("before/0001.bin"), true),
        record(2, "content/b.json", None, false),
    ];
    let steps = rollback_plan(&records);
    assert_eq!(steps.len(), 3);
    match &steps[0] {
        RollbackStep::Remove { path } => assert_eq!(path.as_str(), "content/b.json"),
        other => panic!("unexpected step: {other:?}"),
    }
    match &steps[1] {
        RollbackStep::Restore { path, snapshot } => {
            assert_eq!(path.as_str(), "project.json");
            assert_eq!(snapshot.as_str(), "before/0001.bin");
        }
        other => panic!("unexpected step: {other:?}"),
    }
    match &steps[2] {
        RollbackStep::Restore { path, .. } => assert_eq!(path.as_str(), "content/a.json"),
        other => panic!("unexpected step: {other:?}"),
    }
    assert_eq!(apply_order(&records), vec![0, 2, 1]);
}
