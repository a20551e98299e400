use crate::command::input::{
    document_id_member, id_error, id_member, member, missing_field_pub, missing_message,
    text_member, text_member_of, type_message, wrong_type_pub,
};
use crate::content::{
    references_view, ContentError, ContentReference, DocumentEnvelope, DocumentHeader,
    ReferenceView,
};
use crate::ids::{identifier_result, lemma_identifier_text, EngineTypeId, ObjectId};
use crate::json::{
    items_model, json_clone, json_string, json_u64, lemma_model_parts, member_get, members_model,
    model, Dyadic, JsonModel, JsonNumber, JsonValue, NumberRepr,
};
use crate::stage::{
    CoordinateSpace, HexCoord, StageConnection, StageDocument, StageObject, StageObjectKind,
    STAGE_DOCUMENT_TYPE,
};
use crate::text::{push_decimal, push_str, string_of, text_is};
use vstd::prelude::*;

verus! {

/// What a Stage object is, as plain values.
pub enum KindView {
    Actor { definition: Seq<char> },
    Trigger { activation: Seq<char>, conditions: Seq<JsonModel>, effects: Seq<JsonModel> },
    SpawnPoint { profile: Seq<char> },
    Marker { marker_type: Seq<char> },
}

/// A Stage object as plain values.
pub struct ObjectView {
    pub id: Seq<char>,
    pub position: HexCoord,
    pub object: KindView,
    pub properties: JsonModel,
}

/// A Stage connection as plain values.
pub struct ConnectionView {
    pub id: Seq<char>,
    pub to_stage: Seq<char>,
    pub entry_point: Seq<char>,
}

/// A Stage document as plain values.
pub struct StageView {
    pub id: Seq<char>,
    pub name: Seq<char>,
    pub coordinate_space: CoordinateSpace,
    pub layers: Seq<Seq<char>>,
    pub objects: Seq<ObjectView>,
    pub connections: Seq<ConnectionView>,
}

impl StageObjectKind {
    /// The kind as plain values.
    pub open spec fn view(&self) -> KindView {
        match self {
            StageObjectKind::Actor { definition } => KindView::Actor { definition: definition.view() },
            StageObjectKind::Trigger { activation, conditions, effects } => KindView::Trigger {
                activation: activation@,
                conditions: items_model(conditions@),
                effects: items_model(effects@),
            },
            StageObjectKind::SpawnPoint { profile } => KindView::SpawnPoint { profile: profile@ },
            StageObjectKind::Marker { marker_type } => KindView::Marker { marker_type: marker_type@ },
        }
    }
}

impl StageObject {
    /// The object as plain values.
    pub open spec fn view(&self) -> ObjectView {
        ObjectView {
            id: self.id.view(),
            position: self.position,
            object: self.object.view(),
            properties: model(self.properties),
        }
    }
}

impl StageConnection {
    /// The connection as plain values.
    pub open spec fn view(&self) -> ConnectionView {
        ConnectionView {
            id: self.id.view(),
            to_stage: self.to_stage.view(),
            entry_point: self.entry_point@,
        }
    }
}

/// The texts of a list of strings.
pub open spec fn texts_view(xs: Seq<String>) -> Seq<Seq<char>> {
    Seq::new(xs.len(), |i: int| xs[i]@)
}

/// The views of a list of objects.
pub open spec fn objects_view(xs: Seq<StageObject>) -> Seq<ObjectView> {
    Seq::new(xs.len(), |i: int| xs[i].view())
}

/// The views of a list of connections.
pub open spec fn connections_view(xs: Seq<StageConnection>) -> Seq<ConnectionView> {
    Seq::new(xs.len(), |i: int| xs[i].view())
}

impl StageDocument {
    /// The document as plain values.
    pub open spec fn view(&self) -> StageView {
        StageView {
            id: self.id.view(),
            name: self.name@,
            coordinate_space: self.coordinate_space,
            layers: texts_view(self.layers@),
            objects: objects_view(self.objects@),
            connections: connections_view(self.connections@),
        }
    }
}

// ---------------------------------------------------------------------------------------
// Encoding: the JSON form of a Stage (object members in ascending key order).
// ---------------------------------------------------------------------------------------

/// A JSON string.
pub open spec fn text_model(s: Seq<char>) -> JsonModel {
    JsonModel::String(s)
}

/// A signed integer as JSON.
pub open spec fn int_model(n: i32) -> JsonModel {
    if n >= 0 {
        JsonModel::Number(NumberRepr::PosInt(n as u64))
    } else {
        JsonModel::Number(NumberRepr::NegInt(n as i64))
    }
}

/// An unsigned integer as JSON.
pub open spec fn count_model(n: u32) -> JsonModel {
    JsonModel::Number(NumberRepr::PosInt(n as u64))
}

/// `{"q": .., "r": ..}`.
pub open spec fn hex_model(c: HexCoord) -> JsonModel {
    JsonModel::Object(seq![("q"@, int_model(c.q)), ("r"@, int_model(c.r))])
}

/// A grid space as JSON, tagged by `kind`.
pub open spec fn grid_model(kind: Seq<char>, width: u32, height: u32) -> JsonModel {
    JsonModel::Object(
        seq![("height"@, count_model(height)), ("kind"@, text_model(kind)), ("width"@, count_model(width))],
    )
}

/// A coordinate space as JSON, tagged by `kind`.
pub open spec fn space_model(s: CoordinateSpace) -> JsonModel {
    match s {
        CoordinateSpace::HexAxial { width, height } => grid_model("hex_axial"@, width, height),
        CoordinateSpace::Square { width, height } => grid_model("square"@, width, height),
        CoordinateSpace::Free2d => JsonModel::Object(seq![("kind"@, text_model("free2d"@))]),
        CoordinateSpace::Free3d => JsonModel::Object(seq![("kind"@, text_model("free3d"@))]),
    }
}

/// An object kind as JSON, tagged by `kind`.
pub open spec fn kind_model(k: KindView) -> JsonModel {
    match k {
        KindView::Actor { definition } => JsonModel::Object(
            seq![("definition"@, text_model(definition)), ("kind"@, text_model("actor"@))],
        ),
        KindView::Trigger { activation, conditions, effects } => JsonModel::Object(
            seq![
                ("activation"@, text_model(activation)),
                ("conditions"@, JsonModel::Array(conditions)),
                ("effects"@, JsonModel::Array(effects)),
                ("kind"@, text_model("trigger"@)),
            ],
        ),
        KindView::SpawnPoint { profile } => JsonModel::Object(
            seq![("kind"@, text_model("spawn_point"@)), ("profile"@, text_model(profile))],
        ),
        KindView::Marker { marker_type } => JsonModel::Object(
            seq![("kind"@, text_model("marker"@)), ("marker_type"@, text_model(marker_type))],
        ),
    }
}

/// A Stage object as JSON.
pub open spec fn object_model(o: ObjectView) -> JsonModel {
    JsonModel::Object(
        seq![
            ("id"@, text_model(o.id)),
            ("object"@, kind_model(o.object)),
            ("position"@, hex_model(o.position)),
            ("properties"@, o.properties),
        ],
    )
}

/// A Stage connection as JSON.
pub open spec fn connection_model(c: ConnectionView) -> JsonModel {
    JsonModel::Object(
        seq![
            ("entry_point"@, text_model(c.entry_point)),
            ("id"@, text_model(c.id)),
            ("to_stage"@, text_model(c.to_stage)),
        ],
    )
}

/// A Stage document as JSON.
pub open spec fn stage_model(s: StageView) -> JsonModel {
    JsonModel::Object(
        seq![
            ("connections"@, JsonModel::Array(Seq::new(s.connections.len(), |i: int| connection_model(s.connections[i])))),
            ("coordinate_space"@, space_model(s.coordinate_space)),
            ("id"@, text_model(s.id)),
            ("layers"@, JsonModel::Array(Seq::new(s.layers.len(), |i: int| text_model(s.layers[i])))),
            ("name"@, text_model(s.name)),
            ("objects"@, JsonModel::Array(Seq::new(s.objects.len(), |i: int| object_model(s.objects[i])))),
        ],
    )
}

pub(crate) fn entry(key: &str, v: JsonValue) -> (e: (String, JsonValue))
    ensures
        e.0@ == key@,
        e.1 == v,
{
    (string_of(key), v)
}

pub(crate) fn object_of(ms: Vec<(String, JsonValue)>) -> (v: JsonValue)
    ensures
        model(v) == JsonModel::Object(members_model(ms@)),
{
    let v = JsonValue::Object(ms);
    proof {
        lemma_model_parts(v);
    }
    v
}

pub(crate) fn array_of(xs: Vec<JsonValue>) -> (v: JsonValue)
    ensures
        model(v) == JsonModel::Array(items_model(xs@)),
{
    let v = JsonValue::Array(xs);
    proof {
        lemma_model_parts(v);
    }
    v
}

/// A signed integer as a JSON number.
pub fn json_i32(n: i32) -> (v: JsonValue)
    ensures
        model(v) == int_model(n),
{
    if n >= 0 {
        json_u64(n as u64)
    } else {
        let magnitude: u64 = (0i64 - n as i64) as u64;
        let mut text = string_of("-");
        push_decimal(&mut text, magnitude);
        let mut json_text = string_of("-");
        push_decimal(&mut json_text, magnitude);
        JsonValue::Number(
            JsonNumber {
                repr: NumberRepr::NegInt(n as i64),
                approx: Dyadic { mantissa: n as i64, exponent: 0 },
                text,
                json_text,
            },
        )
    }
}

pub(crate) fn hex_json(c: HexCoord) -> (v: JsonValue)
    ensures
        model(v) == hex_model(c),
{
    let mut ms: Vec<(String, JsonValue)> = Vec::new();
    ms.push(entry("q", json_i32(c.q)));
    ms.push(entry("r", json_i32(c.r)));
    let v = object_of(ms);
    assert(members_model(ms@) =~= seq![("q"@, int_model(c.q)), ("r"@, int_model(c.r))]);
    v
}

fn grid_json(kind: &str, width: u32, height: u32) -> (v: JsonValue)
    ensures
        model(v) == grid_model(kind@, width, height),
{
    let mut ms: Vec<(String, JsonValue)> = Vec::new();
    ms.push(entry("height", json_u64(height as u64)));
    ms.push(entry("kind", json_string(kind)));
    ms.push(entry("width", json_u64(width as u64)));
    let v = object_of(ms);
    assert(members_model(ms@) =~= seq![("height"@, count_model(height)), ("kind"@, text_model(kind@)), ("width"@, count_model(width))]);
    v
}

fn tag_json(kind: &str) -> (v: JsonValue)
    ensures
        model(v) == JsonModel::Object(seq![("kind"@, text_model(kind@))]),
{
    let mut ms: Vec<(String, JsonValue)> = Vec::new();
    ms.push(entry("kind", json_string(kind)));
    let v = object_of(ms);
    assert(members_model(ms@) =~= seq![("kind"@, text_model(kind@))]);
    v
}

/// A coordinate space as JSON.
pub fn space_json(s: &CoordinateSpace) -> (v: JsonValue)
    ensures
        model(v) == space_model(*s),
{
    match s {
        CoordinateSpace::HexAxial { width, height } => grid_json("hex_axial", *width, *height),
        CoordinateSpace::Square { width, height } => grid_json("square", *width, *height),
        CoordinateSpace::Free2d => tag_json("free2d"),
        CoordinateSpace::Free3d => tag_json("free3d"),
    }
}

fn clone_items(xs: &Vec<JsonValue>) -> (out: Vec<JsonValue>)
    ensures
        items_model(out@) == items_model(xs@),
{
    let mut out: Vec<JsonValue> = Vec::new();
    let mut i: usize = 0;
    while i < xs.len()
        invariant
            i <= xs@.len(),
            out@.len() == i,
            forall|j: int| 0 <= j < i ==> model(#[trigger] out@[j]) == model(xs@[j]),
        decreases xs@.len() - i,
    {
        out.push(json_clone(&xs[i]));
        i = i + 1;
    }
    assert(items_model(out@) =~= items_model(xs@));
    out
}

pub(crate) fn kind_json(k: &StageObjectKind) -> (v: JsonValue)
    ensures
        model(v) == kind_model(k.view()),
{
    let mut ms: Vec<(String, JsonValue)> = Vec::new();
    match k {
        StageObjectKind::Actor { definition } => {
            ms.push(entry("definition", json_string(definition.as_str())));
            ms.push(entry("kind", json_string("actor")));
            let v = object_of(ms);
            assert(members_model(ms@) =~= seq![("definition"@, text_model(definition.view())), ("kind"@, text_model("actor"@))]);
            v
        },
        StageObjectKind::Trigger { activation, conditions, effects } => {
            ms.push(entry("activation", json_string(activation.as_str())));
            ms.push(entry("conditions", array_of(clone_items(conditions))));
            ms.push(entry("effects", array_of(clone_items(effects))));
            ms.push(entry("kind", json_string("trigger")));
            let v = object_of(ms);
            assert(members_model(ms@) =~= seq![
                ("activation"@, text_model(activation@)),
                ("conditions"@, JsonModel::Array(items_model(conditions@))),
                ("effects"@, JsonModel::Array(items_model(effects@))),
                ("kind"@, text_model("trigger"@)),
            ]);
            v
        },
        StageObjectKind::SpawnPoint { profile } => {
            ms.push(entry("kind", json_string("spawn_point")));
            ms.push(entry("profile", json_string(profile.as_str())));
            let v = object_of(ms);
            assert(members_model(ms@) =~= seq![("kind"@, text_model("spawn_point"@)), ("profile"@, text_model(profile@))]);
            v
        },
        StageObjectKind::Marker { marker_type } => {
            ms.push(entry("kind", json_string("marker")));
            ms.push(entry("marker_type", json_string(marker_type.as_str())));
            let v = object_of(ms);
            assert(members_model(ms@) =~= seq![("kind"@, text_model("marker"@)), ("marker_type"@, text_model(marker_type@))]);
            v
        },
    }
}

fn object_json(o: &StageObject) -> (v: JsonValue)
    ensures
        model(v) == object_model(o.view()),
{
    let mut ms: Vec<(String, JsonValue)> = Vec::new();
    ms.push(entry("id", json_string(o.id.as_str())));
    ms.push(entry("object", kind_json(&o.object)));
    ms.push(entry("position", hex_json(o.position)));
    ms.push(entry("properties", json_clone(&o.properties)));
    let v = object_of(ms);
    assert(members_model(ms@) =~= seq![
        ("id"@, text_model(o.id.view())),
        ("object"@, kind_model(o.object.view())),
        ("position"@, hex_model(o.position)),
        ("properties"@, model(o.properties)),
    ]);
    v
}

pub(crate) fn connection_json(c: &StageConnection) -> (v: JsonValue)
    ensures
        model(v) == connection_model(c.view()),
{
    let mut ms: Vec<(String, JsonValue)> = Vec::new();
    ms.push(entry("entry_point", json_string(c.entry_point.as_str())));
    ms.push(entry("id", json_string(c.id.as_str())));
    ms.push(entry("to_stage", json_string(c.to_stage.as_str())));
    let v = object_of(ms);
    assert(members_model(ms@) =~= seq![
        ("entry_point"@, text_model(c.entry_point@)),
        ("id"@, text_model(c.id.view())),
        ("to_stage"@, text_model(c.to_stage.view())),
    ]);
    v
}

impl StageDocument {
    /// The document as JSON (members in ascending key order).
    pub fn to_json(&self) -> (v: JsonValue)
        ensures
            model(v) == stage_model(self.view()),
    {
        let ghost sv = self.view();
        let mut connections: Vec<JsonValue> = Vec::new();
        let mut i: usize = 0;
        while i < self.connections.len()
            invariant
                sv == self.view(),
                i <= self.connections@.len(),
                connections@.len() == i,
                forall|j: int| 0 <= j < i ==> model(#[trigger] connections@[j]) == connection_model(sv.connections[j]),
            decreases self.connections@.len() - i,
        {
            connections.push(connection_json(&self.connections[i]));
            i = i + 1;
        }
        let mut layers: Vec<JsonValue> = Vec::new();
        let mut i: usize = 0;
        while i < self.layers.len()
            invariant
                sv == self.view(),
                i <= self.layers@.len(),
                layers@.len() == i,
                forall|j: int| 0 <= j < i ==> model(#[trigger] layers@[j]) == text_model(sv.layers[j]),
            decreases self.layers@.len() - i,
        {
            layers.push(json_string(self.layers[i].as_str()));
            i = i + 1;
        }
        let mut objects: Vec<JsonValue> = Vec::new();
        let mut i: usize = 0;
        while i < self.objects.len()
            invariant
                sv == self.view(),
                i <= self.objects@.len(),
                objects@.len() == i,
                forall|j: int| 0 <= j < i ==> model(#[trigger] objects@[j]) == object_model(sv.objects[j]),
            decreases self.objects@.len() - i,
        {
            objects.push(object_json(&self.objects[i]));
            i = i + 1;
        }
        assert(items_model(connections@) =~= Seq::new(sv.connections.len(), |i: int| connection_model(sv.connections[i])));
        assert(items_model(layers@) =~= Seq::new(sv.layers.len(), |i: int| text_model(sv.layers[i])));
        assert(items_model(objects@) =~= Seq::new(sv.objects.len(), |i: int| object_model(sv.objects[i])));
        let mut ms: Vec<(String, JsonValue)> = Vec::new();
        ms.push(entry("connections", array_of(connections)));
        ms.push(entry("coordinate_space", space_json(&self.coordinate_space)));
        ms.push(entry("id", json_string(self.id.as_str())));
        ms.push(entry("layers", array_of(layers)));
        ms.push(entry("name", json_string(self.name.as_str())));
        ms.push(entry("objects", array_of(objects)));
        let v = object_of(ms);
        assert(members_model(ms@) =~= stage_model(sv)->Object_0);
        v
    }
}


// ---------------------------------------------------------------------------------------
// Decoding: a Stage from JSON, as a derived deserializer reads it.
// ---------------------------------------------------------------------------------------

/// `invalid value: integer out of range, expected <what>`.
pub open spec fn range_message(what: Seq<char>) -> Seq<char> {
    "invalid value: integer out of range, expected "@ + what
}

/// `unknown variant `<k>`, expected one of <expected>`.
pub open spec fn unknown_variant_message(k: Seq<char>, expected: Seq<char>) -> Seq<char> {
    "unknown variant `"@ + k + "`, expected one of "@ + expected
}

/// A required `i32` member.
pub open spec fn i32_field(ms: Seq<(Seq<char>, JsonModel)>, name: Seq<char>) -> Result<i32, Seq<char>> {
    match member_get(ms, name) {
        None => Err(missing_message(name)),
        Some(JsonModel::Number(NumberRepr::PosInt(n))) => if n <= i32::MAX {
            Ok(n as i32)
        } else {
            Err(range_message("i32"@))
        },
        Some(JsonModel::Number(NumberRepr::NegInt(n))) => if i32::MIN <= n <= i32::MAX {
            Ok(n as i32)
        } else {
            Err(range_message("i32"@))
        },
        Some(other) => Err(type_message(other, "i32"@)),
    }
}

/// A required `u32` member.
pub open spec fn u32_field(ms: Seq<(Seq<char>, JsonModel)>, name: Seq<char>) -> Result<u32, Seq<char>> {
    match member_get(ms, name) {
        None => Err(missing_message(name)),
        Some(JsonModel::Number(NumberRepr::PosInt(n))) => if n <= u32::MAX {
            Ok(n as u32)
        } else {
            Err(range_message("u32"@))
        },
        Some(JsonModel::Number(NumberRepr::NegInt(n))) => Err(range_message("u32"@)),
        Some(other) => Err(type_message(other, "u32"@)),
    }
}

/// A list member that defaults to empty.
pub open spec fn list_field(ms: Seq<(Seq<char>, JsonModel)>, name: Seq<char>) -> Result<Seq<JsonModel>, Seq<char>> {
    match member_get(ms, name) {
        None => Ok(Seq::empty()),
        Some(JsonModel::Array(xs)) => Ok(xs),
        Some(other) => Err(type_message(other, "a sequence"@)),
    }
}

/// Decodes every item in order; the first failure wins.
pub open spec fn decode_all<T>(xs: Seq<JsonModel>, f: spec_fn(JsonModel) -> Result<T, Seq<char>>) -> Result<Seq<T>, Seq<char>>
    decreases xs.len(),
{
    if xs.len() == 0 {
        Ok(Seq::empty())
    } else {
        match decode_all(xs.drop_last(), f) {
            Err(e) => Err(e),
            Ok(done) => match f(xs.last()) {
                Ok(x) => Ok(done.push(x)),
                Err(e) => Err(e),
            },
        }
    }
}

/// A failure in a prefix is the failure of the whole list.
pub proof fn lemma_decode_all_prefix<T>(xs: Seq<JsonModel>, f: spec_fn(JsonModel) -> Result<T, Seq<char>>, k: int)
    requires
        0 <= k <= xs.len(),
        decode_all(xs.take(k), f) is Err,
    ensures
        decode_all(xs, f) == decode_all(xs.take(k), f),
    decreases xs.len(),
{
    if k < xs.len() {
        assert(xs.drop_last().take(k) =~= xs.take(k));
        lemma_decode_all_prefix(xs.drop_last(), f, k);
    } else {
        assert(xs.take(k) =~= xs);
    }
}

proof fn lemma_decode_all_step<T>(xs: Seq<JsonModel>, f: spec_fn(JsonModel) -> Result<T, Seq<char>>, i: int)
    requires
        0 <= i < xs.len(),
    ensures
        decode_all(xs.take(i + 1), f) == (match decode_all(xs.take(i), f) {
            Err(e) => Err(e),
            Ok(done) => match f(xs[i]) {
                Ok(x) => Ok(done.push(x)),
                Err(e) => Err(e),
            },
        }),
{
    assert(xs.take(i + 1).drop_last() =~= xs.take(i));
    assert(xs.take(i + 1).last() == xs[i]);
}

/// `{"q": i32, "r": i32}`.
pub open spec fn hex_decode(m: JsonModel) -> Result<HexCoord, Seq<char>> {
    match m {
        JsonModel::Object(ms) => match i32_field(ms, "q"@) {
            Err(e) => Err(e),
            Ok(q) => match i32_field(ms, "r"@) {
                Err(e) => Err(e),
                Ok(r) => Ok(HexCoord { q, r }),
            },
        },
        other => Err(type_message(other, "struct HexCoord"@)),
    }
}

/// The names of the coordinate-space variants.
pub open spec fn space_variants() -> Seq<char> {
    "`hex_axial`, `square`, `free2d`, `free3d`"@
}

/// A grid space's `width` and `height`.
pub open spec fn grid_decode(ms: Seq<(Seq<char>, JsonModel)>, hex: bool) -> Result<CoordinateSpace, Seq<char>> {
    match u32_field(ms, "width"@) {
        Err(e) => Err(e),
        Ok(width) => match u32_field(ms, "height"@) {
            Err(e) => Err(e),
            Ok(height) => if hex {
                Ok(CoordinateSpace::HexAxial { width, height })
            } else {
                Ok(CoordinateSpace::Square { width, height })
            },
        },
    }
}

/// A coordinate space, tagged by `kind`.
pub open spec fn space_decode(m: JsonModel) -> Result<CoordinateSpace, Seq<char>> {
    match m {
        JsonModel::Object(ms) => match member_get(ms, "kind"@) {
            None => Err(missing_message("kind"@)),
            Some(JsonModel::String(k)) => if k == "hex_axial"@ {
                grid_decode(ms, true)
            } else if k == "square"@ {
                grid_decode(ms, false)
            } else if k == "free2d"@ {
                Ok(CoordinateSpace::Free2d)
            } else if k == "free3d"@ {
                Ok(CoordinateSpace::Free3d)
            } else {
                Err(unknown_variant_message(k, space_variants()))
            },
            Some(other) => Err(type_message(other, "a string"@)),
        },
        other => Err(type_message(other, "internally tagged enum CoordinateSpace"@)),
    }
}

/// The names of the object-kind variants.
pub open spec fn kind_variants() -> Seq<char> {
    "`actor`, `trigger`, `spawn_point`, `marker`"@
}

/// A trigger's members.
pub open spec fn trigger_decode(ms: Seq<(Seq<char>, JsonModel)>) -> Result<KindView, Seq<char>> {
    match text_member(ms, "activation"@) {
        Err(e) => Err(e),
        Ok(activation) => match list_field(ms, "conditions"@) {
            Err(e) => Err(e),
            Ok(conditions) => match list_field(ms, "effects"@) {
                Err(e) => Err(e),
                Ok(effects) => Ok(KindView::Trigger { activation, conditions, effects }),
            },
        },
    }
}

/// An object kind, tagged by `kind`.
pub open spec fn kind_decode(m: JsonModel) -> Result<KindView, Seq<char>> {
    match m {
        JsonModel::Object(ms) => match member_get(ms, "kind"@) {
            None => Err(missing_message("kind"@)),
            Some(JsonModel::String(k)) => if k == "actor"@ {
                match id_member(ms, "definition"@) {
                    Err(e) => Err(e),
                    Ok(definition) => Ok(KindView::Actor { definition }),
                }
            } else if k == "trigger"@ {
                trigger_decode(ms)
            } else if k == "spawn_point"@ {
                match text_member(ms, "profile"@) {
                    Err(e) => Err(e),
                    Ok(profile) => Ok(KindView::SpawnPoint { profile }),
                }
            } else if k == "marker"@ {
                match text_member(ms, "marker_type"@) {
                    Err(e) => Err(e),
                    Ok(marker_type) => Ok(KindView::Marker { marker_type }),
                }
            } else {
                Err(unknown_variant_message(k, kind_variants()))
            },
            Some(other) => Err(type_message(other, "a string"@)),
        },
        other => Err(type_message(other, "internally tagged enum StageObjectKind"@)),
    }
}

/// A required member decoded by `f`.
pub open spec fn required<T>(ms: Seq<(Seq<char>, JsonModel)>, name: Seq<char>, f: spec_fn(JsonModel) -> Result<T, Seq<char>>) -> Result<T, Seq<char>> {
    match member_get(ms, name) {
        None => Err(missing_message(name)),
        Some(m) => f(m),
    }
}

/// Decodes positions.
pub open spec fn hex_decoder() -> spec_fn(JsonModel) -> Result<HexCoord, Seq<char>> {
    |m: JsonModel| hex_decode(m)
}

/// Decodes object kinds.
pub open spec fn kind_decoder() -> spec_fn(JsonModel) -> Result<KindView, Seq<char>> {
    |m: JsonModel| kind_decode(m)
}

/// Decodes coordinate spaces.
pub open spec fn space_decoder() -> spec_fn(JsonModel) -> Result<CoordinateSpace, Seq<char>> {
    |m: JsonModel| space_decode(m)
}

/// A Stage object.
pub open spec fn object_decode(m: JsonModel) -> Result<ObjectView, Seq<char>> {
    match m {
        JsonModel::Object(ms) => match id_member(ms, "id"@) {
            Err(e) => Err(e),
            Ok(id) => match required(ms, "position"@, hex_decoder()) {
                Err(e) => Err(e),
                Ok(position) => match required(ms, "object"@, kind_decoder()) {
                    Err(e) => Err(e),
                    Ok(object) => Ok(
                        ObjectView {
                            id,
                            position,
                            object,
                            properties: match member_get(ms, "properties"@) {
                                None => JsonModel::Null,
                                Some(p) => p,
                            },
                        },
                    ),
                },
            },
        },
        other => Err(type_message(other, "struct StageObject"@)),
    }
}

/// A Stage connection.
pub open spec fn connection_decode(m: JsonModel) -> Result<ConnectionView, Seq<char>> {
    match m {
        JsonModel::Object(ms) => match id_member(ms, "id"@) {
            Err(e) => Err(e),
            Ok(id) => match id_member(ms, "to_stage"@) {
                Err(e) => Err(e),
                Ok(to_stage) => match text_member(ms, "entry_point"@) {
                    Err(e) => Err(e),
                    Ok(entry_point) => Ok(ConnectionView { id, to_stage, entry_point }),
                },
            },
        },
        other => Err(type_message(other, "struct StageConnection"@)),
    }
}

/// A layer name.
pub open spec fn layer_decode(m: JsonModel) -> Result<Seq<char>, Seq<char>> {
    match m {
        JsonModel::String(s) => Ok(s),
        other => Err(type_message(other, "a string"@)),
    }
}

/// Decodes layer names.
pub open spec fn layer_decoder() -> spec_fn(JsonModel) -> Result<Seq<char>, Seq<char>> {
    |m: JsonModel| layer_decode(m)
}

/// Decodes Stage objects.
pub open spec fn object_decoder() -> spec_fn(JsonModel) -> Result<ObjectView, Seq<char>> {
    |m: JsonModel| object_decode(m)
}

/// Decodes Stage connections.
pub open spec fn connection_decoder() -> spec_fn(JsonModel) -> Result<ConnectionView, Seq<char>> {
    |m: JsonModel| connection_decode(m)
}

/// A list member (empty when absent) whose items are decoded by `f`.
pub open spec fn list_of<T>(ms: Seq<(Seq<char>, JsonModel)>, name: Seq<char>, f: spec_fn(JsonModel) -> Result<T, Seq<char>>) -> Result<Seq<T>, Seq<char>> {
    match list_field(ms, name) {
        Err(e) => Err(e),
        Ok(xs) => decode_all(xs, f),
    }
}

/// A Stage document, as its derived deserializer reads it: members in declaration order,
/// unknown members ignored, `layers`, `objects` and `connections` empty when absent.
pub open spec fn stage_decode(m: JsonModel) -> Result<StageView, Seq<char>> {
    match m {
        JsonModel::Object(ms) => match id_member(ms, "id"@) {
            Err(e) => Err(e),
            Ok(id) => match text_member(ms, "name"@) {
                Err(e) => Err(e),
                Ok(name) => match required(ms, "coordinate_space"@, space_decoder()) {
                    Err(e) => Err(e),
                    Ok(coordinate_space) => match list_of(ms, "layers"@, layer_decoder()) {
                        Err(e) => Err(e),
                        Ok(layers) => match list_of(ms, "objects"@, object_decoder()) {
                            Err(e) => Err(e),
                            Ok(objects) => match list_of(ms, "connections"@, connection_decoder()) {
                                Err(e) => Err(e),
                                Ok(connections) => Ok(
                                    StageView { id, name, coordinate_space, layers, objects, connections },
                                ),
                            },
                        },
                    },
                },
            },
        },
        other => Err(type_message(other, "struct StageDocument"@)),
    }
}

fn range_text(what: &str) -> (m: String)
    ensures
        m@ == range_message(what@),
{
    let mut m = string_of("invalid value: integer out of range, expected ");
    push_str(&mut m, what);
    m
}

pub(crate) fn i32_member(ms: &Vec<(String, JsonValue)>, name: &str) -> (r: Result<i32, String>)
    ensures
        match i32_field(members_model(ms@), name@) {
            Ok(n) => r == Ok::<i32, String>(n),
            Err(m) => r matches Err(e) && e@ == m,
        },
{
    match member(ms, name) {
        None => Err(missing_field_pub(name)),
        Some(v) => match v {
            JsonValue::Number(n) => match n.repr {
                NumberRepr::PosInt(x) => if x <= 0x7fff_ffff {
                    Ok(x as i32)
                } else {
                    Err(range_text("i32"))
                },
                NumberRepr::NegInt(x) => if -0x8000_0000 <= x && x <= 0x7fff_ffff {
                    Ok(x as i32)
                } else {
                    Err(range_text("i32"))
                },
                NumberRepr::Float(_) => Err(wrong_type_pub(v, "i32")),
            },
            _ => Err(wrong_type_pub(v, "i32")),
        },
    }
}

pub(crate) fn u32_member(ms: &Vec<(String, JsonValue)>, name: &str) -> (r: Result<u32, String>)
    ensures
        match u32_field(members_model(ms@), name@) {
            Ok(n) => r == Ok::<u32, String>(n),
            Err(m) => r matches Err(e) && e@ == m,
        },
{
    match member(ms, name) {
        None => Err(missing_field_pub(name)),
        Some(v) => match v {
            JsonValue::Number(n) => match n.repr {
                NumberRepr::PosInt(x) => if x <= 0xffff_ffff {
                    Ok(x as u32)
                } else {
                    Err(range_text("u32"))
                },
                NumberRepr::NegInt(_) => Err(range_text("u32")),
                NumberRepr::Float(_) => Err(wrong_type_pub(v, "u32")),
            },
            _ => Err(wrong_type_pub(v, "u32")),
        },
    }
}

pub(crate) fn list_member<'a>(ms: &'a Vec<(String, JsonValue)>, name: &str) -> (r: Result<Option<&'a Vec<JsonValue>>, String>)
    ensures
        match list_field(members_model(ms@), name@) {
            Ok(xs) => r matches Ok(o) && match o {
                None => xs == Seq::<JsonModel>::empty(),
                Some(v) => items_model(v@) == xs,
            },
            Err(m) => r matches Err(e) && e@ == m,
        },
{
    match member(ms, name) {
        None => {
            assert(Seq::<JsonModel>::empty() =~= Seq::<JsonModel>::empty());
            Ok(None)
        },
        Some(v) => match v {
            JsonValue::Array(xs) => {
                proof {
                    lemma_model_parts(*v);
                }
                Ok(Some(xs))
            },
            _ => Err(wrong_type_pub(v, "a sequence")),
        },
    }
}

pub(crate) fn object_id_member(ms: &Vec<(String, JsonValue)>, name: &str) -> (r: Result<ObjectId, String>)
    ensures
        match id_member(members_model(ms@), name@) {
            Ok(s) => r matches Ok(id) && id.view() == s,
            Err(m) => r matches Err(e) && e@ == m,
        },
{
    match member(ms, name) {
        None => Err(missing_field_pub(name)),
        Some(v) => match v {
            JsonValue::String(s) => match ObjectId::new(s.as_str()) {
                Ok(id) => Ok(id),
                Err(e) => Err(id_error(e)),
            },
            _ => Err(wrong_type_pub(v, "a string")),
        },
    }
}

fn unknown_variant_text(k: &str, expected: &str) -> (m: String)
    ensures
        m@ == unknown_variant_message(k@, expected@),
{
    let mut m = string_of("unknown variant `");
    push_str(&mut m, k);
    push_str(&mut m, "`, expected one of ");
    push_str(&mut m, expected);
    m
}

fn hex_from(v: &JsonValue) -> (r: Result<HexCoord, String>)
    ensures
        match hex_decode(model(*v)) {
            Ok(c) => r == Ok::<HexCoord, String>(c),
            Err(m) => r matches Err(e) && e@ == m,
        },
{
    proof {
        lemma_model_parts(*v);
    }
    match v {
        JsonValue::Object(ms) => {
            let q = i32_member(ms, "q")?;
            let r = i32_member(ms, "r")?;
            Ok(HexCoord { q, r })
        },
        _ => Err(wrong_type_pub(v, "struct HexCoord")),
    }
}

fn grid_from(ms: &Vec<(String, JsonValue)>, hex: bool) -> (r: Result<CoordinateSpace, String>)
    ensures
        match grid_decode(members_model(ms@), hex) {
            Ok(c) => r == Ok::<CoordinateSpace, String>(c),
            Err(m) => r matches Err(e) && e@ == m,
        },
{
    let width = u32_member(ms, "width")?;
    let height = u32_member(ms, "height")?;
    if hex {
        Ok(CoordinateSpace::HexAxial { width, height })
    } else {
        Ok(CoordinateSpace::Square { width, height })
    }
}

/// Reads a coordinate space (see `space_decode`).
pub fn space_from_json(v: &JsonValue) -> (r: Result<CoordinateSpace, String>)
    ensures
        match space_decode(model(*v)) {
            Ok(c) => r == Ok::<CoordinateSpace, String>(c),
            Err(m) => r matches Err(e) && e@ == m,
        },
{
    proof {
        lemma_model_parts(*v);
    }
    match v {
        JsonValue::Object(ms) => match member(ms, "kind") {
            None => Err(missing_field_pub("kind")),
            Some(t) => match t {
                JsonValue::String(k) => {
                    if text_is(k.as_str(), "hex_axial") {
                        grid_from(ms, true)
                    } else if text_is(k.as_str(), "square") {
                        grid_from(ms, false)
                    } else if text_is(k.as_str(), "free2d") {
                        Ok(CoordinateSpace::Free2d)
                    } else if text_is(k.as_str(), "free3d") {
                        Ok(CoordinateSpace::Free3d)
                    } else {
                        Err(unknown_variant_text(k.as_str(), "`hex_axial`, `square`, `free2d`, `free3d`"))
                    }
                },
                _ => Err(wrong_type_pub(t, "a string")),
            },
        },
        _ => Err(wrong_type_pub(v, "internally tagged enum CoordinateSpace")),
    }
}

pub(crate) fn cloned_list(o: Option<&Vec<JsonValue>>) -> (out: Vec<JsonValue>)
    ensures
        match o {
            None => out@.len() == 0 && items_model(out@) == Seq::<JsonModel>::empty(),
            Some(v) => items_model(out@) == items_model(v@),
        },
{
    match o {
        None => {
            let out: Vec<JsonValue> = Vec::new();
            assert(items_model(out@) =~= Seq::<JsonModel>::empty());
            out
        },
        Some(v) => clone_items(v),
    }
}

fn trigger_from(ms: &Vec<(String, JsonValue)>) -> (r: Result<StageObjectKind, String>)
    ensures
        match trigger_decode(members_model(ms@)) {
            Ok(k) => r matches Ok(x) && x.view() == k,
            Err(m) => r matches Err(e) && e@ == m,
        },
{
    let ghost mm = members_model(ms@);
    let activation = match text_member_of(ms, "activation") {
        Ok(a) => a,
        Err(e) => {
            return Err(e);
        },
    };
    let conditions = match list_member(ms, "conditions") {
        Ok(o) => cloned_list(o),
        Err(e) => {
            return Err(e);
        },
    };
    assert(list_field(mm, "conditions"@) == Ok::<Seq<JsonModel>, Seq<char>>(items_model(conditions@)));
    let effects = match list_member(ms, "effects") {
        Ok(o) => cloned_list(o),
        Err(e) => {
            return Err(e);
        },
    };
    assert(list_field(mm, "effects"@) == Ok::<Seq<JsonModel>, Seq<char>>(items_model(effects@)));
    Ok(StageObjectKind::Trigger { activation, conditions, effects })
}

#[verifier::rlimit(30)]
fn kind_from(v: &JsonValue) -> (r: Result<StageObjectKind, String>)
    ensures
        match kind_decode(model(*v)) {
            Ok(k) => r matches Ok(x) && x.view() == k,
            Err(m) => r matches Err(e) && e@ == m,
        },
{
    proof {
        lemma_model_parts(*v);
    }
    match v {
        JsonValue::Object(ms) => match member(ms, "kind") {
            None => Err(missing_field_pub("kind")),
            Some(t) => match t {
                JsonValue::String(k) => {
                    if text_is(k.as_str(), "actor") {
                        let definition = document_id_member(ms, "definition")?;
                        Ok(StageObjectKind::Actor { definition })
                    } else if text_is(k.as_str(), "trigger") {
                        trigger_from(ms)
                    } else if text_is(k.as_str(), "spawn_point") {
                        let profile = text_member_of(ms, "profile")?;
                        Ok(StageObjectKind::SpawnPoint { profile })
                    } else if text_is(k.as_str(), "marker") {
                        let marker_type = text_member_of(ms, "marker_type")?;
                        Ok(StageObjectKind::Marker { marker_type })
                    } else {
                        Err(unknown_variant_text(k.as_str(), "`actor`, `trigger`, `spawn_point`, `marker`"))
                    }
                },
                _ => Err(wrong_type_pub(t, "a string")),
            },
        },
        _ => Err(wrong_type_pub(v, "internally tagged enum StageObjectKind")),
    }
}

fn object_from(v: &JsonValue) -> (r: Result<StageObject, String>)
    ensures
        match object_decode(model(*v)) {
            Ok(o) => r matches Ok(x) && x.view() == o,
            Err(m) => r matches Err(e) && e@ == m,
        },
{
    proof {
        lemma_model_parts(*v);
    }
    match v {
        JsonValue::Object(ms) => {
            let id = object_id_member(ms, "id")?;
            let position = match member(ms, "position") {
                None => {
                    return Err(missing_field_pub("position"));
                },
                Some(p) => hex_from(p)?,
            };
            let object = match member(ms, "object") {
                None => {
                    return Err(missing_field_pub("object"));
                },
                Some(k) => kind_from(k)?,
            };
            let properties = match member(ms, "properties") {
                None => JsonValue::Null,
                Some(p) => json_clone(p),
            };
            Ok(StageObject { id, position, object, properties })
        },
        _ => Err(wrong_type_pub(v, "struct StageObject")),
    }
}

fn connection_from(v: &JsonValue) -> (r: Result<StageConnection, String>)
    ensures
        match connection_decode(model(*v)) {
            Ok(c) => r matches Ok(x) && x.view() == c,
            Err(m) => r matches Err(e) && e@ == m,
        },
{
    proof {
        lemma_model_parts(*v);
    }
    match v {
        JsonValue::Object(ms) => {
            let id = object_id_member(ms, "id")?;
            let to_stage = document_id_member(ms, "to_stage")?;
            let entry_point = text_member_of(ms, "entry_point")?;
            Ok(StageConnection { id, to_stage, entry_point })
        },
        _ => Err(wrong_type_pub(v, "struct StageConnection")),
    }
}


fn layers_from(xs: &Vec<JsonValue>) -> (r: Result<Vec<String>, String>)
    ensures
        match decode_all(items_model(xs@), layer_decoder()) {
            Ok(ls) => r matches Ok(out) && texts_view(out@) == ls,
            Err(m) => r matches Err(e) && e@ == m,
        },
{
    let ghost all = items_model(xs@);
    let mut out: Vec<String> = Vec::new();
    let mut i: usize = 0;
    assert(texts_view(out@) =~= Seq::<Seq<char>>::empty());
    while i < xs.len()
        invariant
            all == items_model(xs@),
            i <= xs@.len(),
            decode_all(all.take(i as int), layer_decoder()) == Ok::<Seq<Seq<char>>, Seq<char>>(texts_view(out@)),
        decreases xs@.len() - i,
    {
        proof {
            lemma_decode_all_step(all, layer_decoder(), i as int);
        }
        match &xs[i] {
            JsonValue::String(t) => {
                let ghost before = out@;
                out.push(t.clone());
                assert(texts_view(out@) =~= texts_view(before).push(t@));
            },
            other => {
                let e = wrong_type_pub(other, "a string");
                proof {
                    lemma_decode_all_prefix(all, layer_decoder(), i + 1);
                }
                return Err(e);
            },
        }
        i = i + 1;
    }
    assert(all.take(i as int) =~= all);
    Ok(out)
}

fn objects_from(xs: &Vec<JsonValue>) -> (r: Result<Vec<StageObject>, String>)
    ensures
        match decode_all(items_model(xs@), object_decoder()) {
            Ok(os) => r matches Ok(out) && objects_view(out@) == os,
            Err(m) => r matches Err(e) && e@ == m,
        },
{
    let ghost all = items_model(xs@);
    let mut out: Vec<StageObject> = Vec::new();
    let mut i: usize = 0;
    assert(objects_view(out@) =~= Seq::<ObjectView>::empty());
    while i < xs.len()
        invariant
            all == items_model(xs@),
            i <= xs@.len(),
            decode_all(all.take(i as int), object_decoder()) == Ok::<Seq<ObjectView>, Seq<char>>(objects_view(out@)),
        decreases xs@.len() - i,
    {
        proof {
            lemma_decode_all_step(all, object_decoder(), i as int);
        }
        match object_from(&xs[i]) {
            Ok(o) => {
                let ghost before = out@;
                let ghost ov = o.view();
                out.push(o);
                assert(objects_view(out@) =~= objects_view(before).push(ov));
            },
            Err(e) => {
                proof {
                    lemma_decode_all_prefix(all, object_decoder(), i + 1);
                }
                return Err(e);
            },
        }
        i = i + 1;
    }
    assert(all.take(i as int) =~= all);
    Ok(out)
}

fn connections_from(xs: &Vec<JsonValue>) -> (r: Result<Vec<StageConnection>, String>)
    ensures
        match decode_all(items_model(xs@), connection_decoder()) {
            Ok(cs) => r matches Ok(out) && connections_view(out@) == cs,
            Err(m) => r matches Err(e) && e@ == m,
        },
{
    let ghost all = items_model(xs@);
    let mut out: Vec<StageConnection> = Vec::new();
    let mut i: usize = 0;
    assert(connections_view(out@) =~= Seq::<ConnectionView>::empty());
    while i < xs.len()
        invariant
            all == items_model(xs@),
            i <= xs@.len(),
            decode_all(all.take(i as int), connection_decoder()) == Ok::<Seq<ConnectionView>, Seq<char>>(connections_view(out@)),
        decreases xs@.len() - i,
    {
        proof {
            lemma_decode_all_step(all, connection_decoder(), i as int);
        }
        match connection_from(&xs[i]) {
            Ok(c) => {
                let ghost before = out@;
                let ghost cv = c.view();
                out.push(c);
                assert(connections_view(out@) =~= connections_view(before).push(cv));
            },
            Err(e) => {
                proof {
                    lemma_decode_all_prefix(all, connection_decoder(), i + 1);
                }
                return Err(e);
            },
        }
        i = i + 1;
    }
    assert(all.take(i as int) =~= all);
    Ok(out)
}

fn layers_member(ms: &Vec<(String, JsonValue)>) -> (r: Result<Vec<String>, String>)
    ensures
        match list_of(members_model(ms@), "layers"@, layer_decoder()) {
            Ok(ls) => r matches Ok(out) && texts_view(out@) == ls,
            Err(m) => r matches Err(e) && e@ == m,
        },
{
    match list_member(ms, "layers") {
        Err(e) => Err(e),
        Ok(None) => {
            let out: Vec<String> = Vec::new();
            assert(texts_view(out@) =~= Seq::<Seq<char>>::empty());
            Ok(out)
        },
        Ok(Some(xs)) => layers_from(xs),
    }
}

fn objects_member(ms: &Vec<(String, JsonValue)>) -> (r: Result<Vec<StageObject>, String>)
    ensures
        match list_of(members_model(ms@), "objects"@, object_decoder()) {
            Ok(os) => r matches Ok(out) && objects_view(out@) == os,
            Err(m) => r matches Err(e) && e@ == m,
        },
{
    match list_member(ms, "objects") {
        Err(e) => Err(e),
        Ok(None) => {
            let out: Vec<StageObject> = Vec::new();
            assert(objects_view(out@) =~= Seq::<ObjectView>::empty());
            Ok(out)
        },
        Ok(Some(xs)) => objects_from(xs),
    }
}

fn connections_member(ms: &Vec<(String, JsonValue)>) -> (r: Result<Vec<StageConnection>, String>)
    ensures
        match list_of(members_model(ms@), "connections"@, connection_decoder()) {
            Ok(cs) => r matches Ok(out) && connections_view(out@) == cs,
            Err(m) => r matches Err(e) && e@ == m,
        },
{
    match list_member(ms, "connections") {
        Err(e) => Err(e),
        Ok(None) => {
            let out: Vec<StageConnection> = Vec::new();
            assert(connections_view(out@) =~= Seq::<ConnectionView>::empty());
            Ok(out)
        },
        Ok(Some(xs)) => connections_from(xs),
    }
}

impl StageDocument {
    /// Reads a Stage from its JSON form (see `stage_decode`).
    #[verifier::rlimit(40)]
    pub fn from_json(v: &JsonValue) -> (r: Result<StageDocument, String>)
        ensures
            match stage_decode(model(*v)) {
                Ok(sv) => r matches Ok(s) && s.view() == sv,
                Err(m) => r matches Err(e) && e@ == m,
            },
    {
        proof {
            lemma_model_parts(*v);
        }
        match v {
            JsonValue::Object(ms) => {
                let id = document_id_member(ms, "id")?;
                let name = text_member_of(ms, "name")?;
                let coordinate_space = match member(ms, "coordinate_space") {
                    None => {
                        return Err(missing_field_pub("coordinate_space"));
                    },
                    Some(c) => space_from_json(c)?,
                };
                let layers = layers_member(ms)?;
                let objects = objects_member(ms)?;
                let connections = connections_member(ms)?;
                Ok(StageDocument { id, name, coordinate_space, layers, objects, connections })
            },
            _ => Err(wrong_type_pub(v, "struct StageDocument")),
        }
    }
}


/// One reference per actor object, to its definition, in object order.
pub open spec fn actor_references(os: Seq<ObjectView>) -> Seq<ReferenceView>
    decreases os.len(),
{
    if os.len() == 0 {
        Seq::empty()
    } else {
        let rest = actor_references(os.drop_last());
        match os.last().object {
            KindView::Actor { definition } => rest.push(
                ReferenceView {
                    source_object: Some(os.last().id),
                    target_document: definition,
                    target_object: None,
                    kind: "actor_definition"@,
                },
            ),
            _ => rest,
        }
    }
}

/// One reference per connection, to the Stage it leads to.
pub open spec fn connection_references(cs: Seq<ConnectionView>) -> Seq<ReferenceView> {
    Seq::new(
        cs.len(),
        |i: int|
            ReferenceView {
                source_object: Some(cs[i].id),
                target_document: cs[i].to_stage,
                target_object: None,
                kind: "stage_connection"@,
            },
    )
}

/// The references a Stage document declares: its actors' definitions, then its
/// connections' targets.
pub open spec fn stage_references(s: StageView) -> Seq<ReferenceView> {
    actor_references(s.objects) + connection_references(s.connections)
}

/// `expected tactical.stage.document, found <type>`.
pub open spec fn wrong_stage_type_message(found: Seq<char>) -> Seq<char> {
    "expected "@ + STAGE_DOCUMENT_TYPE@ + ", found "@ + found
}

fn stage_type_id() -> (id: EngineTypeId)
    ensures
        id.view() == STAGE_DOCUMENT_TYPE@,
{
    proof {
        reveal_strlit("tactical.stage.document");
        lemma_identifier_text(STAGE_DOCUMENT_TYPE@);
    }
    EngineTypeId::from_static(STAGE_DOCUMENT_TYPE)
}

impl StageDocument {
    fn references(&self) -> (refs: Vec<ContentReference>)
        ensures
            references_view(refs@) == stage_references(self.view()),
    {
        let ghost sv = self.view();
        let mut refs: Vec<ContentReference> = Vec::new();
        let mut i: usize = 0;
        assert(references_view(refs@) =~= actor_references(sv.objects.take(0)));
        while i < self.objects.len()
            invariant
                sv == self.view(),
                i <= self.objects@.len(),
                references_view(refs@) == actor_references(sv.objects.take(i as int)),
            decreases self.objects@.len() - i,
        {
            let ghost before = refs@;
            assert(sv.objects.take(i + 1).drop_last() =~= sv.objects.take(i as int));
            assert(sv.objects.take(i + 1).last() == sv.objects[i as int]);
            match &self.objects[i].object {
                StageObjectKind::Actor { definition } => {
                    refs.push(
                        ContentReference {
                            source_object: Some(self.objects[i].id.clone()),
                            target_document: definition.clone(),
                            target_object: None,
                            kind: string_of("actor_definition"),
                        },
                    );
                    assert(references_view(refs@) =~= references_view(before).push(refs@.last().view()));
                },
                _ => {},
            }
            i = i + 1;
        }
        assert(sv.objects.take(i as int) =~= sv.objects);
        let ghost actors = references_view(refs@);
        let mut j: usize = 0;
        assert(references_view(refs@) =~= actors + connection_references(sv.connections.take(0)));
        while j < self.connections.len()
            invariant
                sv == self.view(),
                j <= self.connections@.len(),
                references_view(refs@) == actors + connection_references(sv.connections.take(j as int)),
            decreases self.connections@.len() - j,
        {
            let ghost before = refs@;
            let c = &self.connections[j];
            refs.push(
                ContentReference {
                    source_object: Some(c.id.clone()),
                    target_document: c.to_stage.clone(),
                    target_object: None,
                    kind: string_of("stage_connection"),
                },
            );
            assert(references_view(refs@) =~= references_view(before).push(refs@.last().view()));
            assert(connection_references(sv.connections.take(j + 1)) =~= connection_references(
                sv.connections.take(j as int),
            ).push(connection_references(sv.connections)[j as int]));
            j = j + 1;
        }
        assert(sv.connections.take(j as int) =~= sv.connections);
        refs
    }

    /// The document as a stored envelope: its identifier and name in the header, the
    /// Stage type, schema version 1, its references, and its JSON form as payload.
    pub fn to_envelope(&self) -> (r: Result<DocumentEnvelope, ContentError>)
        ensures
            r matches Ok(d) && d.view().id == self.id.view() && d.view().type_id
                == STAGE_DOCUMENT_TYPE@ && d.view().schema_version == 1 && d.view().display_name
                == self.name@ && d.view().references == stage_references(self.view())
                && d.view().payload == stage_model(self.view()),
    {
        let d = DocumentEnvelope {
            header: DocumentHeader {
                id: self.id.clone(),
                type_id: stage_type_id(),
                schema_version: 1,
                display_name: self.name.clone(),
            },
            references: self.references(),
            payload: self.to_json(),
        };
        proof {
            reveal(DocumentEnvelope::view);
        }
        Ok(d)
    }

    /// Reads a Stage back from its envelope: refused unless the envelope holds a Stage
    /// document, then read from the payload.
    pub fn from_envelope(value: &DocumentEnvelope) -> (r: Result<StageDocument, ContentError>)
        ensures
            value.view().type_id != STAGE_DOCUMENT_TYPE@ ==> (r matches Err(
                ContentError::InvalidDocument(m),
            ) && m@ == wrong_stage_type_message(value.view().type_id)),
            value.view().type_id == STAGE_DOCUMENT_TYPE@ ==> match stage_decode(value.view().payload) {
                Ok(sv) => r matches Ok(s) && s.view() == sv,
                Err(m) => r matches Err(ContentError::Serialization(e)) && e@ == m,
            },
    {
        proof {
            reveal(DocumentEnvelope::view);
        }
        if !text_is(value.header.type_id.as_str(), STAGE_DOCUMENT_TYPE) {
            let mut m = string_of("expected ");
            push_str(&mut m, STAGE_DOCUMENT_TYPE);
            push_str(&mut m, ", found ");
            push_str(&mut m, value.header.type_id.as_str());
            return Err(ContentError::InvalidDocument(m));
        }
        match StageDocument::from_json(&value.payload) {
            Ok(s) => Ok(s),
            Err(e) => Err(ContentError::Serialization(e)),
        }
    }
}

} // verus!
