//! Stage runtime: checks a compiled Stage artifact before its objects are instantiated,
//! and keeps the record of loaded Stage instances and the entities each one owns.

use crate::command::input::{id_member, missing_field_pub, missing_message, type_id_member, type_message, wrong_type_pub};
use crate::content::{artifact_hash_of, ArtifactEnvelope, RuntimeObjectDescriptor, StageArtifactPayload};
use crate::ids::{ArtifactId, EngineTypeId, ObjectId, StageInstanceId};
use crate::json::{
    json_clone, json_object, json_string, json_u64, lemma_model_parts, member_get, members_model, model,
    object_model, items_model, JsonModel, JsonValue, NumberRepr,
};
use crate::keyed::{key_index, lemma_key_index};
use crate::stage::{ACTOR_OBJECT_TYPE, TRIGGER_OBJECT_TYPE};
use crate::stage_json::{decode_all, lemma_decode_all_prefix, object_id_member};
use crate::text::{chars_of, decimal, lemma_decimal_digits, push_decimal, push_str, push_zero_padded, string_of, text_is, zero_padded};
use vstd::prelude::*;

verus! {

/// The artifact type the Stage runtime loads.
pub const STAGE_RUNTIME_ARTIFACT_TYPE: &'static str = "tactical.stage.artifact";

/// The compiler version whose artifacts the Stage runtime loads.
pub const STAGE_RUNTIME_COMPILER_VERSION: u32 = 1;

pub const RUNTIME_ARTIFACT_TYPE_MISMATCH: &'static str = "RUNTIME_ARTIFACT_TYPE_MISMATCH";
pub const RUNTIME_ARTIFACT_VERSION_UNSUPPORTED: &'static str = "RUNTIME_ARTIFACT_VERSION_UNSUPPORTED";
pub const RUNTIME_ARTIFACT_INTEGRITY_FAILED: &'static str = "RUNTIME_ARTIFACT_INTEGRITY_FAILED";
pub const RUNTIME_ARTIFACT_PAYLOAD_INVALID: &'static str = "RUNTIME_ARTIFACT_PAYLOAD_INVALID";
pub const RUNTIME_OBJECT_ID_DUPLICATE: &'static str = "RUNTIME_OBJECT_ID_DUPLICATE";
pub const RUNTIME_OBJECT_INVALID: &'static str = "RUNTIME_OBJECT_INVALID";
pub const RUNTIME_STAGE_NOT_LOADED: &'static str = "RUNTIME_STAGE_NOT_LOADED";

/// Why the runtime refused an artifact or a request.
#[derive(Debug)]
pub enum RuntimeError {
    StageNotLoaded(StageInstanceId),
    ArtifactTypeMismatch { expected: EngineTypeId, actual: EngineTypeId },
    ArtifactVersionUnsupported { supported: u32, actual: u32 },
    ArtifactIntegrityFailed { declared: String, computed: String },
    InvalidArtifactPayload(String),
    DuplicateObjectId(ObjectId),
    InvalidObject { object_id: ObjectId, message: String },
}

/// A runtime error as plain values.
pub enum RuntimeFault {
    StageNotLoaded(Seq<char>),
    TypeMismatch { expected: Seq<char>, actual: Seq<char> },
    VersionUnsupported { supported: u32, actual: u32 },
    IntegrityFailed { declared: Seq<char>, computed: Seq<char> },
    InvalidPayload(Seq<char>),
    DuplicateObject(Seq<char>),
    InvalidObject { object_id: Seq<char>, message: Seq<char> },
}

impl RuntimeError {
    /// The error as plain values.
    pub open spec fn view(&self) -> RuntimeFault {
        match self {
            RuntimeError::StageNotLoaded(id) => RuntimeFault::StageNotLoaded(id.view()),
            RuntimeError::ArtifactTypeMismatch { expected, actual } => RuntimeFault::TypeMismatch {
                expected: expected.view(),
                actual: actual.view(),
            },
            RuntimeError::ArtifactVersionUnsupported { supported, actual } => RuntimeFault::VersionUnsupported {
                supported: *supported,
                actual: *actual,
            },
            RuntimeError::ArtifactIntegrityFailed { declared, computed } => RuntimeFault::IntegrityFailed {
                declared: declared@,
                computed: computed@,
            },
            RuntimeError::InvalidArtifactPayload(m) => RuntimeFault::InvalidPayload(m@),
            RuntimeError::DuplicateObjectId(id) => RuntimeFault::DuplicateObject(id.view()),
            RuntimeError::InvalidObject { object_id, message } => RuntimeFault::InvalidObject {
                object_id: object_id.view(),
                message: message@,
            },
        }
    }
}

/// The machine-readable code of a fault.
pub open spec fn fault_code(f: RuntimeFault) -> Seq<char> {
    match f {
        RuntimeFault::StageNotLoaded(_) => RUNTIME_STAGE_NOT_LOADED@,
        RuntimeFault::TypeMismatch { .. } => RUNTIME_ARTIFACT_TYPE_MISMATCH@,
        RuntimeFault::VersionUnsupported { .. } => RUNTIME_ARTIFACT_VERSION_UNSUPPORTED@,
        RuntimeFault::IntegrityFailed { .. } => RUNTIME_ARTIFACT_INTEGRITY_FAILED@,
        RuntimeFault::InvalidPayload(_) => RUNTIME_ARTIFACT_PAYLOAD_INVALID@,
        RuntimeFault::DuplicateObject(_) => RUNTIME_OBJECT_ID_DUPLICATE@,
        RuntimeFault::InvalidObject { .. } => RUNTIME_OBJECT_INVALID@,
    }
}

/// The message of a fault.
pub open spec fn fault_message(f: RuntimeFault) -> Seq<char> {
    match f {
        RuntimeFault::StageNotLoaded(id) => "stage is not loaded: "@ + id,
        RuntimeFault::TypeMismatch { expected, actual } => "artifact type mismatch: expected "@ + expected
            + ", found "@ + actual,
        RuntimeFault::VersionUnsupported { supported, actual } => "artifact compiler version "@ + decimal(
            actual as nat,
        ) + " is unsupported; supported version is "@ + decimal(supported as nat),
        RuntimeFault::IntegrityFailed { declared, computed } => "artifact integrity check failed: declared "@
            + declared + ", computed "@ + computed,
        RuntimeFault::InvalidPayload(m) => "artifact payload is invalid: "@ + m,
        RuntimeFault::DuplicateObject(id) => "duplicate runtime object ID: "@ + id,
        RuntimeFault::InvalidObject { object_id, message } => "runtime object "@ + object_id + " is invalid: "@
            + message,
    }
}

/// The structured details of a fault.
pub open spec fn fault_details(f: RuntimeFault) -> JsonModel {
    match f {
        RuntimeFault::StageNotLoaded(id) => object_model(seq![("stage_instance"@, JsonModel::String(id))]),
        RuntimeFault::TypeMismatch { expected, actual } => object_model(
            seq![("expected_type"@, JsonModel::String(expected)), ("actual_type"@, JsonModel::String(actual))],
        ),
        RuntimeFault::VersionUnsupported { supported, actual } => object_model(
            seq![
                ("supported_version"@, JsonModel::Number(NumberRepr::PosInt(supported as u64))),
                ("actual_version"@, JsonModel::Number(NumberRepr::PosInt(actual as u64))),
            ],
        ),
        RuntimeFault::IntegrityFailed { declared, computed } => object_model(
            seq![("declared_hash"@, JsonModel::String(declared)), ("computed_hash"@, JsonModel::String(computed))],
        ),
        RuntimeFault::InvalidPayload(m) => object_model(seq![("reason"@, JsonModel::String(m))]),
        RuntimeFault::DuplicateObject(id) => object_model(seq![("object_id"@, JsonModel::String(id))]),
        RuntimeFault::InvalidObject { object_id, message } => object_model(
            seq![("object_id"@, JsonModel::String(object_id)), ("reason"@, JsonModel::String(message))],
        ),
    }
}

fn pair(key: &str, v: JsonValue) -> (e: (String, JsonValue))
    ensures
        e.0@ == key@,
        e.1 == v,
{
    (string_of(key), v)
}

impl RuntimeError {
    /// The machine-readable code (see `fault_code`).
    pub fn code(&self) -> (c: &'static str)
        ensures
            c@ == fault_code(self.view()),
    {
        match self {
            RuntimeError::StageNotLoaded(_) => RUNTIME_STAGE_NOT_LOADED,
            RuntimeError::ArtifactTypeMismatch { .. } => RUNTIME_ARTIFACT_TYPE_MISMATCH,
            RuntimeError::ArtifactVersionUnsupported { .. } => RUNTIME_ARTIFACT_VERSION_UNSUPPORTED,
            RuntimeError::ArtifactIntegrityFailed { .. } => RUNTIME_ARTIFACT_INTEGRITY_FAILED,
            RuntimeError::InvalidArtifactPayload(_) => RUNTIME_ARTIFACT_PAYLOAD_INVALID,
            RuntimeError::DuplicateObjectId(_) => RUNTIME_OBJECT_ID_DUPLICATE,
            RuntimeError::InvalidObject { .. } => RUNTIME_OBJECT_INVALID,
        }
    }

    /// The message (see `fault_message`).
    pub fn message(&self) -> (m: String)
        ensures
            m@ == fault_message(self.view()),
    {
        match self {
            RuntimeError::StageNotLoaded(id) => {
                let mut m = string_of("stage is not loaded: ");
                push_str(&mut m, id.as_str());
                m
            },
            RuntimeError::ArtifactTypeMismatch { expected, actual } => {
                let mut m = string_of("artifact type mismatch: expected ");
                push_str(&mut m, expected.as_str());
                push_str(&mut m, ", found ");
                push_str(&mut m, actual.as_str());
                m
            },
            RuntimeError::ArtifactVersionUnsupported { supported, actual } => {
                let mut m = string_of("artifact compiler version ");
                push_decimal(&mut m, *actual as u64);
                push_str(&mut m, " is unsupported; supported version is ");
                push_decimal(&mut m, *supported as u64);
                m
            },
            RuntimeError::ArtifactIntegrityFailed { declared, computed } => {
                let mut m = string_of("artifact integrity check failed: declared ");
                push_str(&mut m, declared.as_str());
                push_str(&mut m, ", computed ");
                push_str(&mut m, computed.as_str());
                m
            },
            RuntimeError::InvalidArtifactPayload(r) => {
                let mut m = string_of("artifact payload is invalid: ");
                push_str(&mut m, r.as_str());
                m
            },
            RuntimeError::DuplicateObjectId(id) => {
                let mut m = string_of("duplicate runtime object ID: ");
                push_str(&mut m, id.as_str());
                m
            },
            RuntimeError::InvalidObject { object_id, message } => {
                let mut m = string_of("runtime object ");
                push_str(&mut m, object_id.as_str());
                push_str(&mut m, " is invalid: ");
                push_str(&mut m, message.as_str());
                m
            },
        }
    }

    /// The structured details (see `fault_details`).
    pub fn details(&self) -> (v: JsonValue)
        ensures
            model(v) == fault_details(self.view()),
    {
        let mut ms: Vec<(String, JsonValue)> = Vec::new();
        match self {
            RuntimeError::StageNotLoaded(id) => {
                ms.push(pair("stage_instance", json_string(id.as_str())));
            },
            RuntimeError::ArtifactTypeMismatch { expected, actual } => {
                ms.push(pair("expected_type", json_string(expected.as_str())));
                ms.push(pair("actual_type", json_string(actual.as_str())));
            },
            RuntimeError::ArtifactVersionUnsupported { supported, actual } => {
                ms.push(pair("supported_version", json_u64(*supported as u64)));
                ms.push(pair("actual_version", json_u64(*actual as u64)));
            },
            RuntimeError::ArtifactIntegrityFailed { declared, computed } => {
                ms.push(pair("declared_hash", json_string(declared.as_str())));
                ms.push(pair("computed_hash", json_string(computed.as_str())));
            },
            RuntimeError::InvalidArtifactPayload(r) => {
                ms.push(pair("reason", json_string(r.as_str())));
            },
            RuntimeError::DuplicateObjectId(id) => {
                ms.push(pair("object_id", json_string(id.as_str())));
            },
            RuntimeError::InvalidObject { object_id, message } => {
                ms.push(pair("object_id", json_string(object_id.as_str())));
                ms.push(pair("reason", json_string(message.as_str())));
            },
        }
        let ghost mm = members_model(ms@);
        proof {
            match self {
                RuntimeError::StageNotLoaded(id) => {
                    assert(mm =~= seq![("stage_instance"@, JsonModel::String(id.view()))]);
                },
                RuntimeError::ArtifactTypeMismatch { expected, actual } => {
                    assert(mm =~= seq![("expected_type"@, JsonModel::String(expected.view())), ("actual_type"@, JsonModel::String(actual.view()))]);
                },
                RuntimeError::ArtifactVersionUnsupported { supported, actual } => {
                    assert(mm =~= seq![
                        ("supported_version"@, JsonModel::Number(NumberRepr::PosInt(*supported as u64))),
                        ("actual_version"@, JsonModel::Number(NumberRepr::PosInt(*actual as u64))),
                    ]);
                },
                RuntimeError::ArtifactIntegrityFailed { declared, computed } => {
                    assert(mm =~= seq![("declared_hash"@, JsonModel::String(declared@)), ("computed_hash"@, JsonModel::String(computed@))]);
                },
                RuntimeError::InvalidArtifactPayload(r) => {
                    assert(mm =~= seq![("reason"@, JsonModel::String(r@))]);
                },
                RuntimeError::DuplicateObjectId(id) => {
                    assert(mm =~= seq![("object_id"@, JsonModel::String(id.view()))]);
                },
                RuntimeError::InvalidObject { object_id, message } => {
                    assert(mm =~= seq![("object_id"@, JsonModel::String(object_id.view())), ("reason"@, JsonModel::String(message@))]);
                },
            }
        }
        json_object(ms)
    }
}

// ---------------------------------------------------------------------------
// payload decoding
// ---------------------------------------------------------------------------

/// A runtime object descriptor as plain values.
pub struct DescriptorView {
    pub id: Seq<char>,
    pub type_id: Seq<char>,
    pub properties: JsonModel,
}

/// A Stage artifact payload as plain values.
pub struct PayloadView {
    pub objects: Seq<DescriptorView>,
    pub metadata: JsonModel,
}

/// Descriptors as plain values.
pub open spec fn descriptors_view(ds: Seq<RuntimeObjectDescriptor>) -> Seq<DescriptorView> {
    Seq::new(
        ds.len(),
        |i: int| DescriptorView { id: ds[i].id.view(), type_id: ds[i].type_id.view(), properties: model(ds[i].properties) },
    )
}

/// A payload as plain values.
pub open spec fn payload_view(p: StageArtifactPayload) -> PayloadView {
    PayloadView { objects: descriptors_view(p.objects@), metadata: model(p.metadata) }
}

/// A runtime object descriptor, as its derived deserializer reads it.
pub open spec fn descriptor_decode(m: JsonModel) -> Result<DescriptorView, Seq<char>> {
    match m {
        JsonModel::Object(ms) => match id_member(ms, "id"@) {
            Err(e) => Err(e),
            Ok(id) => match id_member(ms, "type_id"@) {
                Err(e) => Err(e),
                Ok(type_id) => match member_get(ms, "properties"@) {
                    None => Err(missing_message("properties"@)),
                    Some(properties) => Ok(DescriptorView { id, type_id, properties }),
                },
            },
        },
        other => Err(type_message(other, "struct RuntimeObjectDescriptor"@)),
    }
}

/// Decodes descriptors.
pub open spec fn descriptor_decoder() -> spec_fn(JsonModel) -> Result<DescriptorView, Seq<char>> {
    |m: JsonModel| descriptor_decode(m)
}

/// A Stage artifact payload, as its derived deserializer reads it: `objects` (a list of
/// descriptors) and `metadata` are both required.
pub open spec fn payload_decode(m: JsonModel) -> Result<PayloadView, Seq<char>> {
    match m {
        JsonModel::Object(ms) => match member_get(ms, "objects"@) {
            None => Err(missing_message("objects"@)),
            Some(JsonModel::Array(xs)) => match decode_all(xs, descriptor_decoder()) {
                Err(e) => Err(e),
                Ok(objects) => match member_get(ms, "metadata"@) {
                    None => Err(missing_message("metadata"@)),
                    Some(metadata) => Ok(PayloadView { objects, metadata }),
                },
            },
            Some(other) => Err(type_message(other, "a sequence"@)),
        },
        other => Err(type_message(other, "struct StageArtifactPayload"@)),
    }
}

fn descriptor_from(v: &JsonValue) -> (r: Result<RuntimeObjectDescriptor, String>)
    ensures
        match descriptor_decode(model(*v)) {
            Ok(d) => r matches Ok(x) && descriptors_view(seq![x])[0] == d,
            Err(m) => r matches Err(e) && e@ == m,
        },
{
    proof {
        lemma_model_parts(*v);
    }
    match v {
        JsonValue::Object(ms) => {
            let id = object_id_member(ms, "id")?;
            let type_id = type_id_member(ms, "type_id")?;
            let properties = match crate::command::input::member(ms, "properties") {
                None => {
                    return Err(missing_field_pub("properties"));
                },
                Some(p) => json_clone(p),
            };
            Ok(RuntimeObjectDescriptor { id, type_id, properties })
        },
        _ => Err(wrong_type_pub(v, "struct RuntimeObjectDescriptor")),
    }
}

fn descriptors_from(xs: &Vec<JsonValue>) -> (r: Result<Vec<RuntimeObjectDescriptor>, String>)
    ensures
        match decode_all(items_model(xs@), descriptor_decoder()) {
            Ok(ds) => r matches Ok(out) && descriptors_view(out@) == ds,
            Err(m) => r matches Err(e) && e@ == m,
        },
{
    let ghost all = items_model(xs@);
    let mut out: Vec<RuntimeObjectDescriptor> = Vec::new();
    let mut i: usize = 0;
    assert(descriptors_view(out@) =~= Seq::<DescriptorView>::empty());
    while i < xs.len()
        invariant
            all == items_model(xs@),
            i <= xs@.len(),
            decode_all(all.take(i as int), descriptor_decoder()) == Ok::<Seq<DescriptorView>, Seq<char>>(
                descriptors_view(out@),
            ),
        decreases xs@.len() - i,
    {
        proof {
            assert(all.take(i as int + 1).drop_last() =~= all.take(i as int));
            assert(all.take(i as int + 1).last() == all[i as int]);
        }
        match descriptor_from(&xs[i]) {
            Ok(d) => {
                let ghost before = out@;
                let ghost dv = descriptors_view(seq![d])[0];
                out.push(d);
                assert(descriptors_view(out@) =~= descriptors_view(before).push(dv));
            },
            Err(e) => {
                proof {
                    lemma_decode_all_prefix(all, descriptor_decoder(), i + 1);
                }
                return Err(e);
            },
        }
        i = i + 1;
    }
    assert(all.take(i as int) =~= all);
    Ok(out)
}

fn payload_from(v: &JsonValue) -> (r: Result<StageArtifactPayload, String>)
    ensures
        match payload_decode(model(*v)) {
            Ok(p) => r matches Ok(x) && payload_view(x) == p,
            Err(m) => r matches Err(e) && e@ == m,
        },
{
    proof {
        lemma_model_parts(*v);
    }
    match v {
        JsonValue::Object(ms) => {
            let objects = match crate::command::input::member(ms, "objects") {
                None => {
                    return Err(missing_field_pub("objects"));
                },
                Some(JsonValue::Array(xs)) => {
                    proof {
                        lemma_model_parts(JsonValue::Array(*xs));
                    }
                    descriptors_from(xs)?
                },
                Some(other) => {
                    return Err(wrong_type_pub(other, "a sequence"));
                },
            };
            let metadata = match crate::command::input::member(ms, "metadata") {
                None => {
                    return Err(missing_field_pub("metadata"));
                },
                Some(m) => json_clone(m),
            };
            Ok(StageArtifactPayload { objects, metadata })
        },
        _ => Err(wrong_type_pub(v, "struct StageArtifactPayload")),
    }
}

// ---------------------------------------------------------------------------
// artifact checks
// ---------------------------------------------------------------------------

/// Whether `s` begins with `prefix`.
pub open spec fn starts_with(s: Seq<char>, prefix: Seq<char>) -> bool {
    prefix.len() <= s.len() && s.take(prefix.len() as int) == prefix
}

fn starts_with_text(s: &str, prefix: &str) -> (r: bool)
    ensures
        r == starts_with(s@, prefix@),
{
    let a = chars_of(s);
    let b = chars_of(prefix);
    if b.len() > a.len() {
        return false;
    }
    let mut i: usize = 0;
    while i < b.len()
        invariant
            a@ == s@,
            b@ == prefix@,
            b@.len() <= a@.len(),
            i <= b@.len(),
            a@.take(i as int) == b@.take(i as int),
        decreases b@.len() - i,
    {
        if a[i] != b[i] {
            assert(s@.take(prefix@.len() as int)[i as int] != prefix@[i as int]);
            return false;
        }
        assert(a@.take(i as int + 1) =~= a@.take(i as int).push(a@[i as int]));
        assert(b@.take(i as int + 1) =~= b@.take(i as int).push(b@[i as int]));
        i = i + 1;
    }
    assert(b@.take(i as int) =~= b@);
    true
}

/// Why a runtime object cannot be instantiated, if it cannot: its properties must be a JSON
/// object, and a tactical object's must hold `position` and `object`.
pub open spec fn object_problem(d: DescriptorView) -> Option<Seq<char>> {
    match d.properties {
        JsonModel::Object(ms) => if starts_with(d.type_id, "tactical."@) {
            if member_get(ms, "position"@) is None {
                Some("tactical runtime object is missing `position`"@)
            } else if member_get(ms, "object"@) is None {
                Some("tactical runtime object is missing `object`"@)
            } else {
                None
            }
        } else {
            None
        },
        _ => Some("runtime object properties must be a JSON object"@),
    }
}

/// Checks that a runtime object can be instantiated (see `object_problem`).
pub fn validate_runtime_object(object: &RuntimeObjectDescriptor) -> (r: Result<(), RuntimeError>)
    ensures
        match object_problem(descriptors_view(seq![*object])[0]) {
            None => r is Ok,
            Some(m) => r matches Err(e) && e.view() == (RuntimeFault::InvalidObject { object_id: object.id.view(), message: m }),
        },
{
    proof {
        lemma_model_parts(object.properties);
    }
    let ghost dv = descriptors_view(seq![*object])[0];
    match &object.properties {
        JsonValue::Object(ms) => {
            proof {
                reveal_strlit("tactical.");
            }
            if starts_with_text(object.type_id.as_str(), "tactical.") {
                if crate::command::input::member(ms, "position").is_none() {
                    return Err(RuntimeError::InvalidObject {
                        object_id: object.id.clone(),
                        message: string_of("tactical runtime object is missing `position`"),
                    });
                }
                if crate::command::input::member(ms, "object").is_none() {
                    return Err(RuntimeError::InvalidObject {
                        object_id: object.id.clone(),
                        message: string_of("tactical runtime object is missing `object`"),
                    });
                }
            }
            Ok(())
        },
        _ => Err(RuntimeError::InvalidObject {
            object_id: object.id.clone(),
            message: string_of("runtime object properties must be a JSON object"),
        }),
    }
}

/// The first of the first `n` objects that repeats an earlier identifier or cannot be
/// instantiated, as a fault.
pub open spec fn objects_fault(os: Seq<DescriptorView>, n: int) -> Option<RuntimeFault>
    decreases n,
{
    if n <= 0 {
        None
    } else {
        match objects_fault(os, n - 1) {
            Some(f) => Some(f),
            None => if exists|j: int| 0 <= j < n - 1 && (#[trigger] os[j]).id == os[n - 1].id {
                Some(RuntimeFault::DuplicateObject(os[n - 1].id))
            } else {
                match object_problem(os[n - 1]) {
                    Some(m) => Some(RuntimeFault::InvalidObject { object_id: os[n - 1].id, message: m }),
                    None => None,
                }
            },
        }
    }
}

/// What checking a payload gives: the payload, or the first check it fails: its form, the
/// metadata being an object, then each object in order.
pub open spec fn payload_check(m: JsonModel) -> Result<PayloadView, RuntimeFault> {
    match payload_decode(m) {
        Err(e) => Err(RuntimeFault::InvalidPayload(e)),
        Ok(p) => if !(p.metadata is Object) {
            Err(RuntimeFault::InvalidPayload("Stage metadata must be a JSON object"@))
        } else {
            match objects_fault(p.objects, p.objects.len() as int) {
                Some(f) => Err(f),
                None => Ok(p),
            }
        },
    }
}

/// What checking an artifact gives: its payload, or the first check it fails, in order:
/// its type, its compiler version, its hash against its contents, then its payload.
pub open spec fn artifact_check(a: ArtifactEnvelope) -> Result<PayloadView, RuntimeFault> {
    if a.artifact_type.view() != STAGE_RUNTIME_ARTIFACT_TYPE@ {
        Err(RuntimeFault::TypeMismatch { expected: STAGE_RUNTIME_ARTIFACT_TYPE@, actual: a.artifact_type.view() })
    } else if a.compiler_version != STAGE_RUNTIME_COMPILER_VERSION {
        Err(RuntimeFault::VersionUnsupported { supported: STAGE_RUNTIME_COMPILER_VERSION, actual: a.compiler_version })
    } else if a.artifact_hash@.len() == 0 || a.artifact_hash@ != artifact_hash_of(a) {
        Err(RuntimeFault::IntegrityFailed { declared: a.artifact_hash@, computed: artifact_hash_of(a) })
    } else {
        payload_check(model(a.payload))
    }
}

fn check_payload(v: &JsonValue) -> (r: Result<StageArtifactPayload, RuntimeError>)
    ensures
        match payload_check(model(*v)) {
            Ok(p) => r matches Ok(x) && payload_view(x) == p,
            Err(f) => r matches Err(e) && e.view() == f,
        },
{
    let payload = match payload_from(v) {
        Ok(p) => p,
        Err(m) => {
            return Err(RuntimeError::InvalidArtifactPayload(m));
        },
    };
    proof {
        lemma_model_parts(payload.metadata);
    }
    if !matches!(payload.metadata, JsonValue::Object(_)) {
        return Err(RuntimeError::InvalidArtifactPayload(string_of("Stage metadata must be a JSON object")));
    }
    check_objects(&payload.objects)?;
    Ok(payload)
}

fn check_objects(objects: &Vec<RuntimeObjectDescriptor>) -> (r: Result<(), RuntimeError>)
    ensures
        match objects_fault(descriptors_view(objects@), objects@.len() as int) {
            None => r is Ok,
            Some(f) => r matches Err(e) && e.view() == f,
        },
{
    let ghost os = descriptors_view(objects@);
    let mut seen: Vec<ObjectId> = Vec::new();
    let mut i: usize = 0;
    while i < objects.len()
        invariant
            os == descriptors_view(objects@),
            i <= objects@.len(),
            seen@.len() == i,
            forall|k: int| 0 <= k < i ==> (#[trigger] seen@[k]).view() == os[k].id,
            objects_fault(os, i as int) is None,
        decreases objects@.len() - i,
    {
        let object = &objects[i];
        assert(os[i as int] == descriptors_view(seq![*object])[0]);
        let mut k: usize = 0;
        while k < seen.len()
            invariant
                os == descriptors_view(objects@),
                i < objects@.len(),
                seen@.len() == i,
                forall|j: int| 0 <= j < i ==> (#[trigger] seen@[j]).view() == os[j].id,
                object.id.view() == os[i as int].id,
                k <= seen@.len(),
                objects_fault(os, i as int) is None,
                forall|j: int| 0 <= j < k ==> (#[trigger] os[j]).id != os[i as int].id,
            decreases seen@.len() - k,
        {
            if seen[k].same(&object.id) {
                proof {
                    assert(os[k as int].id == os[i as int].id);
                    assert(objects_fault(os, i as int + 1) == Some(RuntimeFault::DuplicateObject(os[i as int].id)));
                    lemma_fault_stays(os, i as int + 1, os.len() as int);
                }
                return Err(RuntimeError::DuplicateObjectId(object.id.clone()));
            }
            k = k + 1;
        }
        proof {
            assert(!exists|j: int| 0 <= j < i && (#[trigger] os[j]).id == os[i as int].id);
        }
        match validate_runtime_object(object) {
            Ok(()) => {},
            Err(e) => {
                proof {
                    assert(objects_fault(os, i as int + 1) is Some);
                    lemma_fault_stays(os, i as int + 1, os.len() as int);
                }
                return Err(e);
            },
        }
        seen.push(object.id.clone());
        i = i + 1;
    }
    Ok(())
}

proof fn lemma_fault_stays(os: Seq<DescriptorView>, k: int, n: int)
    requires
        0 <= k <= n,
        objects_fault(os, k) is Some,
    ensures
        objects_fault(os, n) == objects_fault(os, k),
    decreases n,
{
    if n > k {
        lemma_fault_stays(os, k, n - 1);
    }
}

/// Checks a Stage artifact before its objects are instantiated (see `artifact_check`).
#[verifier::spinoff_prover]
#[verifier::rlimit(60)]
pub fn validate_stage_artifact(artifact: &ArtifactEnvelope) -> (r: Result<StageArtifactPayload, RuntimeError>)
    ensures
        match artifact_check(*artifact) {
            Ok(p) => r matches Ok(x) && payload_view(x) == p,
            Err(f) => r matches Err(e) && e.view() == f,
        },
{
    proof {
        reveal_strlit("tactical.stage.artifact");
        crate::ids::lemma_identifier_text(STAGE_RUNTIME_ARTIFACT_TYPE@);
    }
    if !text_is(artifact.artifact_type.as_str(), STAGE_RUNTIME_ARTIFACT_TYPE) {
        return Err(RuntimeError::ArtifactTypeMismatch {
            expected: EngineTypeId::from_static(STAGE_RUNTIME_ARTIFACT_TYPE),
            actual: artifact.artifact_type.clone(),
        });
    }
    if artifact.compiler_version != STAGE_RUNTIME_COMPILER_VERSION {
        return Err(RuntimeError::ArtifactVersionUnsupported {
            supported: STAGE_RUNTIME_COMPILER_VERSION,
            actual: artifact.compiler_version,
        });
    }
    let computed = match artifact.compute_artifact_hash() {
        Ok(h) => h,
        Err(_) => {
            return Err(RuntimeError::InvalidArtifactPayload(string_of("artifact hash could not be computed")));
        },
    };
    proof {
        reveal_strlit("");
    }
    if text_is(artifact.artifact_hash.as_str(), "") || !crate::text::same_text(&artifact.artifact_hash, &computed) {
        return Err(RuntimeError::ArtifactIntegrityFailed { declared: artifact.artifact_hash.clone(), computed });
    }
    check_payload(&artifact.payload)
}

// ---------------------------------------------------------------------------
// loaded Stage instances
// ---------------------------------------------------------------------------

/// A loaded Stage instance: its identifier, the artifact it came from, and the entities
/// (by their handles) that it owns.
#[derive(Debug)]
pub struct RuntimeStage {
    pub instance_id: StageInstanceId,
    pub artifact_id: ArtifactId,
    pub entities: Vec<u64>,
}

/// A loaded Stage instance as plain values.
pub struct StageRecord {
    pub instance_id: Seq<char>,
    pub artifact_id: Seq<char>,
    pub entities: Seq<u64>,
}

/// Loaded instances as plain values.
pub open spec fn records_of(s: Seq<RuntimeStage>) -> Seq<StageRecord> {
    Seq::new(
        s.len(),
        |i: int| StageRecord { instance_id: s[i].instance_id.view(), artifact_id: s[i].artifact_id.view(), entities: s[i].entities@ },
    )
}

/// The identifier of the `n`th loaded instance: `stage-instance-` and `n` in eight digits.
pub open spec fn instance_name(n: u64) -> Seq<char> {
    "stage-instance-"@ + zero_padded(n as nat, 8)
}

/// Records by their instance identifier.
pub open spec fn keyed_records(records: Seq<StageRecord>) -> Seq<(Seq<char>, StageRecord)> {
    Seq::new(records.len(), |i: int| (records[i].instance_id, records[i]))
}

/// The position of the instance `id` among `records` (the first, should it repeat), if it
/// is loaded.
pub open spec fn record_index(records: Seq<StageRecord>, id: Seq<char>) -> Option<int> {
    key_index(keyed_records(records), id)
}

/// The loaded Stage instances, with the counter that names the next one.
#[derive(Debug)]
pub struct StageRuntimeManager {
    next_instance: u64,
    active: Vec<RuntimeStage>,
}

fn instance_id(n: u64) -> (id: StageInstanceId)
    ensures
        id.view() == instance_name(n),
{
    let mut text = string_of("stage-instance-");
    push_zero_padded(&mut text, n, 8);
    proof {
        reveal_strlit("stage-instance-");
        lemma_decimal_digits(n as nat);
        let t = instance_name(n);
        let d = decimal(n as nat);
        assert forall|i: int| 0 <= i < t.len() implies crate::ids::is_identifier_char(#[trigger] t[i]) by {
            if i >= 15 {
                let z = zero_padded(n as nat, 8);
                if d.len() >= 8 {
                    assert(z[i - 15] == d[i - 15]);
                } else if i - 15 < 8 - d.len() {
                    assert(z[i - 15] == '0');
                } else {
                    assert(z[i - 15] == d[i - 15 - (8 - d.len())]);
                }
            }
        }
        crate::ids::lemma_identifier_text(t);
    }
    StageInstanceId::from_static(text.as_str())
}

impl StageRuntimeManager {
    /// How many instances have been loaded so far.
    pub closed spec fn loaded(&self) -> u64 {
        self.next_instance
    }

    /// The loaded instances, oldest first.
    pub closed spec fn records(&self) -> Seq<StageRecord> {
        records_of(self.active@)
    }

    /// A manager with nothing loaded.
    pub fn new() -> (m: Self)
        ensures
            m.loaded() == 0,
            m.records() == Seq::<StageRecord>::empty(),
    {
        let m = StageRuntimeManager { next_instance: 0, active: Vec::new() };
        assert(m.records() =~= Seq::<StageRecord>::empty());
        m
    }

    /// Checks `artifact` and, when it passes, names the instance that loading it creates
    /// and hands back the objects to instantiate. A refused artifact changes nothing.
    pub fn begin_load(&mut self, artifact: &ArtifactEnvelope) -> (r: Result<
        (StageInstanceId, StageArtifactPayload),
        RuntimeError,
    >)
        requires
            old(self).loaded() < u64::MAX,
        ensures
            final(self).records() == old(self).records(),
            match artifact_check(*artifact) {
                Ok(p) => r matches Ok((id, x)) && payload_view(x) == p && id.view() == instance_name(
                    (old(self).loaded() + 1) as u64,
                ) && final(self).loaded() == old(self).loaded() + 1,
                Err(f) => r matches Err(e) && e.view() == f && final(self).loaded() == old(self).loaded(),
            },
    {
        let payload = validate_stage_artifact(artifact)?;
        self.next_instance = self.next_instance + 1;
        Ok((instance_id(self.next_instance), payload))
    }

    /// Records the instance `instance_id` of `artifact_id` as loaded, owning `entities`.
    pub fn finish_load(&mut self, instance_id: StageInstanceId, artifact_id: ArtifactId, entities: Vec<u64>)
        ensures
            final(self).loaded() == old(self).loaded(),
            final(self).records() == old(self).records().push(
                StageRecord { instance_id: instance_id.view(), artifact_id: artifact_id.view(), entities: entities@ },
            ),
    {
        let ghost before = self.records();
        let stage = RuntimeStage { instance_id, artifact_id, entities };
        let ghost rec = StageRecord {
            instance_id: stage.instance_id.view(),
            artifact_id: stage.artifact_id.view(),
            entities: stage.entities@,
        };
        self.active.push(stage);
        assert(self.records() =~= before.push(rec));
    }

    /// Forgets the loaded instance `id` and hands back the entities it owned, to be
    /// despawned; refused when no such instance is loaded.
    pub fn unload(&mut self, id: &StageInstanceId) -> (r: Result<Vec<u64>, RuntimeError>)
        ensures
            final(self).loaded() == old(self).loaded(),
            match record_index(old(self).records(), id.view()) {
                Some(i) => r matches Ok(es) && es@ == old(self).records()[i].entities
                    && final(self).records() == old(self).records().remove(i),
                None => r matches Err(e) && e.view() == RuntimeFault::StageNotLoaded(id.view())
                    && final(self).records() == old(self).records(),
            },
    {
        let ghost v = self.records();
        let ghost kv = keyed_records(v);
        let ghost n0 = self.next_instance;
        let mut i: usize = 0;
        while i < self.active.len()
            invariant
                v == self.records(),
                kv == keyed_records(v),
                n0 == self.next_instance,
                self.records() == old(self).records(),
                self.loaded() == old(self).loaded(),
                i <= v.len(),
                forall|j: int| 0 <= j < i ==> (#[trigger] kv[j]).0 != id.view(),
            decreases v.len() - i,
        {
            if self.active[i].instance_id.same(id) {
                proof {
                    assert(kv[i as int].0 == id.view());
                    lemma_key_index(kv, id.view());
                    let w = key_index(kv, id.view())->Some_0;
                    if w < i {
                        assert(kv[w].0 != id.view());
                    } else if w > i {
                        assert(kv[i as int].0 != id.view());
                    }
                }
                let stage = self.active.remove(i);
                assert(self.records() =~= v.remove(i as int));
                return Ok(stage.entities);
            }
            i = i + 1;
        }
        proof {
            lemma_key_index(kv, id.view());
        }
        Err(RuntimeError::StageNotLoaded(id.clone()))
    }

    /// How many instances are loaded.
    pub fn active_count(&self) -> (n: usize)
        ensures
            n == self.records().len(),
    {
        self.active.len()
    }
}

/// Loading an instance that is not loaded yet and then unloading it hands back exactly its
/// entities and leaves the other loaded instances as they were.
pub proof fn lemma_unload_undoes_load(records: Seq<StageRecord>, stage: StageRecord)
    requires
        record_index(records, stage.instance_id) is None,
    ensures
        record_index(records.push(stage), stage.instance_id) == Some(records.len() as int),
        records.push(stage)[records.len() as int].entities == stage.entities,
        records.push(stage).remove(records.len() as int) == records,
{
    let all = records.push(stage);
    let k0 = keyed_records(records);
    let k1 = keyed_records(all);
    lemma_key_index(k0, stage.instance_id);
    lemma_key_index(k1, stage.instance_id);
    assert(k1[records.len() as int].0 == stage.instance_id);
    let w = key_index(k1, stage.instance_id)->Some_0;
    if w < records.len() {
        assert(k0[w].0 == k1[w].0);
    } else if w > records.len() {
        assert(false);
    }
    assert(all.remove(records.len() as int) =~= records);
}

// ---------------------------------------------------------------------------
// tactical markers
// ---------------------------------------------------------------------------

/// The tactical marker a runtime object receives.
#[derive(Debug, Clone, Copy, PartialEq, Eq, Structural)]
pub enum TacticalMarker {
    Actor,
    Trigger,
}

/// The marker for a runtime type: actors and triggers get one, other objects none.
pub open spec fn marker_of(type_id: Seq<char>) -> Option<TacticalMarker> {
    if type_id == ACTOR_OBJECT_TYPE@ {
        Some(TacticalMarker::Actor)
    } else if type_id == TRIGGER_OBJECT_TYPE@ {
        Some(TacticalMarker::Trigger)
    } else {
        None
    }
}

/// The marker for a runtime object of type `type_id` (see `marker_of`).
pub fn tactical_marker(type_id: &EngineTypeId) -> (r: Option<TacticalMarker>)
    ensures
        r == marker_of(type_id.view()),
{
    if text_is(type_id.as_str(), ACTOR_OBJECT_TYPE) {
        Some(TacticalMarker::Actor)
    } else if text_is(type_id.as_str(), TRIGGER_OBJECT_TYPE) {
        Some(TacticalMarker::Trigger)
    } else {
        None
    }
}

} // verus!
