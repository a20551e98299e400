use crate::diagnostics::{
    document_diagnostic, Diagnostic, DiagnosticBag, DiagnosticLocation, DiagnosticView,
    LocationView, Severity,
};
use crate::ids::{lemma_identifier_text, DocumentId, EngineTypeId, ObjectId};
use crate::json::JsonValue;
use crate::keyed::{lemma_flatten_all, lemma_flatten_step};
use crate::stage_json::{objects_view, ObjectView, StageView};
use crate::text::{push_str, string_of};
use vstd::prelude::*;

verus! {

/// Type of Stage authoring documents.
pub const STAGE_DOCUMENT_TYPE: &'static str = "tactical.stage.document";
/// Type of compiled Stage artifacts.
pub const STAGE_ARTIFACT_TYPE: &'static str = "tactical.stage.artifact";
/// Runtime type of actors.
pub const ACTOR_OBJECT_TYPE: &'static str = "tactical.actor";
/// Runtime type of triggers.
pub const TRIGGER_OBJECT_TYPE: &'static str = "tactical.trigger";
/// Runtime type of spawn points.
pub const SPAWN_OBJECT_TYPE: &'static str = "tactical.spawn_point";
/// Runtime type of markers.
pub const MARKER_OBJECT_TYPE: &'static str = "tactical.marker";

/// An axial hex coordinate.
#[derive(Debug, Clone, Copy, PartialEq, Eq, Structural)]
pub struct HexCoord {
    pub q: i32,
    pub r: i32,
}

/// `|x|`.
pub open spec fn abs(x: int) -> int {
    if x < 0 {
        -x
    } else {
        x
    }
}

/// The number of hex steps between two coordinates: half the sum of the absolute
/// differences of the three cube coordinates.
pub open spec fn hex_distance(a: HexCoord, b: HexCoord) -> int {
    let dq = a.q - b.q;
    let dr = a.r - b.r;
    let ds = (-a.q - a.r) - (-b.q - b.r);
    (abs(dq) + abs(dr) + abs(ds)) / 2
}

/// Whether a value fits in an `i32`, other than its least value (which has no negation).
pub open spec fn negatable_i32(x: int) -> bool {
    i32::MIN < x <= i32::MAX
}

/// The distance is computed in 32-bit arithmetic without overflow: every intermediate
/// difference, negation and the sum of magnitudes fit.
pub open spec fn distance_fits(a: HexCoord, b: HexCoord) -> bool {
    let dq = a.q - b.q;
    let dr = a.r - b.r;
    let sa = -a.q - a.r;
    let sb = -b.q - b.r;
    let ds = sa - sb;
    &&& negatable_i32(a.q as int)
    &&& negatable_i32(b.q as int)
    &&& negatable_i32(dq)
    &&& negatable_i32(dr)
    &&& i32::MIN <= sa <= i32::MAX
    &&& i32::MIN <= sb <= i32::MAX
    &&& negatable_i32(ds)
    &&& abs(dq) + abs(dr) <= i32::MAX
    &&& abs(dq) + abs(dr) + abs(ds) <= i32::MAX
}

impl HexCoord {
    /// The coordinate `(q, r)`.
    pub fn new(q: i32, r: i32) -> (c: Self)
        ensures
            c.q == q,
            c.r == r,
    {
        HexCoord { q, r }
    }

    /// The hex distance to `other` (see `hex_distance`).
    pub fn distance(self, other: Self) -> (d: u32)
        requires
            distance_fits(self, other),
        ensures
            d == hex_distance(self, other),
    {
        let dq: i64 = self.q as i64 - other.q as i64;
        let dr: i64 = self.r as i64 - other.r as i64;
        let ds: i64 = (-(self.q as i64) - self.r as i64) - (-(other.q as i64) - other.r as i64);
        let aq: i64 = if dq < 0 { -dq } else { dq };
        let ar: i64 = if dr < 0 { -dr } else { dr };
        let as_: i64 = if ds < 0 { -ds } else { ds };
        ((aq + ar + as_) / 2) as u32
    }
}

/// The hex distance is symmetric.
pub proof fn lemma_distance_symmetric(a: HexCoord, b: HexCoord)
    ensures
        hex_distance(a, b) == hex_distance(b, a),
{
}

/// A coordinate is at distance zero from itself.
pub proof fn lemma_distance_to_self(a: HexCoord)
    ensures
        hex_distance(a, a) == 0,
{
}

/// The hex distance obeys the triangle inequality.
pub proof fn lemma_distance_triangle(a: HexCoord, b: HexCoord, c: HexCoord)
    ensures
        hex_distance(a, c) <= hex_distance(a, b) + hex_distance(b, c),
{
    let x1 = a.q - b.q;
    let y1 = a.r - b.r;
    let x2 = b.q - c.q;
    let y2 = b.r - c.r;
    let s1 = abs(x1) + abs(y1) + abs(x1 + y1);
    let s2 = abs(x2) + abs(y2) + abs(x2 + y2);
    let s = abs(x1 + x2) + abs(y1 + y2) + abs(x1 + x2 + y1 + y2);
    assert(s <= s1 + s2);
    assert(s1 % 2 == 0);
    assert(s2 % 2 == 0);
    assert(s % 2 == 0);
}

/// The hex distance is the largest of the three cube-coordinate differences: the absolute
/// differences of `q`, of `r`, and of `q + r`.
pub proof fn lemma_distance_is_largest_difference(a: HexCoord, b: HexCoord)
    ensures
        ({
            let x = a.q - b.q;
            let y = a.r - b.r;
            let m = if abs(x) >= abs(y) { abs(x) } else { abs(y) };
            hex_distance(a, b) == if m >= abs(x + y) { m } else { abs(x + y) }
        }),
{
}

/// Two different coordinates are one step apart exactly when the second is one of the six
/// axial neighbours of the first: `(q ± 1, r)`, `(q, r ± 1)`, `(q + 1, r - 1)` or
/// `(q - 1, r + 1)`.
pub proof fn lemma_distance_one_is_neighbour(a: HexCoord, b: HexCoord)
    ensures
        hex_distance(a, b) == 1 <==> {
            let x = b.q - a.q;
            let y = b.r - a.r;
            ||| x == 1 && y == 0
            ||| x == -1 && y == 0
            ||| x == 0 && y == 1
            ||| x == 0 && y == -1
            ||| x == 1 && y == -1
            ||| x == -1 && y == 1
        },
{
    lemma_distance_is_largest_difference(a, b);
}

/// The coordinate space of a Stage.
#[derive(Debug, Clone, Copy, PartialEq, Eq, Structural)]
pub enum CoordinateSpace {
    HexAxial { width: u32, height: u32 },
    Square { width: u32, height: u32 },
    Free2d,
    Free3d,
}

/// A grid space with a zero dimension.
pub open spec fn dimensions_invalid(space: CoordinateSpace) -> bool {
    match space {
        CoordinateSpace::HexAxial { width, height } => width == 0 || height == 0,
        CoordinateSpace::Square { width, height } => width == 0 || height == 0,
        _ => false,
    }
}

/// Whether `(x, y)` lies in the space: free spaces hold every position; a grid holds the
/// non-negative positions below its width and height taken as `i32` (a dimension above
/// `i32::MAX` wraps to a negative bound).
pub open spec fn position_in_space(space: CoordinateSpace, x: i32, y: i32) -> bool {
    match space {
        CoordinateSpace::HexAxial { width, height } => x >= 0 && y >= 0 && x < (width as i32)
            && y < (height as i32),
        CoordinateSpace::Square { width, height } => x >= 0 && y >= 0 && x < (width as i32) && y
            < (height as i32),
        _ => true,
    }
}

/// A grid whose dimensions fit in an `i32` holds a position exactly when both its
/// coordinates are non-negative, `q` is below the width and `r` is below the height.
pub proof fn lemma_grid_bounds(space: CoordinateSpace, q: i32, r: i32)
    requires
        space matches CoordinateSpace::HexAxial { width, height } ==> width <= i32::MAX && height <= i32::MAX,
        space matches CoordinateSpace::Square { width, height } ==> width <= i32::MAX && height <= i32::MAX,
    ensures
        space matches CoordinateSpace::HexAxial { width, height } ==> (position_in_space(space, q, r) <==> (0 <= q
            < width && 0 <= r < height)),
        space matches CoordinateSpace::Square { width, height } ==> (position_in_space(space, q, r) <==> (0 <= q
            < width && 0 <= r < height)),
        space is Free2d || space is Free3d ==> position_in_space(space, q, r),
{
    match space {
        CoordinateSpace::HexAxial { width, height } | CoordinateSpace::Square { width, height } => {
            assert(width <= 0x7fff_ffff ==> (width as i32) as int == width as int) by (bit_vector);
            assert(height <= 0x7fff_ffff ==> (height as i32) as int == height as int) by (bit_vector);
        },
        _ => {},
    }
}

/// Whether `position` lies in `space` (see `position_in_space`).
pub fn stage_position_in_bounds(space: &CoordinateSpace, position: HexCoord) -> (r: bool)
    ensures
        r == position_in_space(*space, position.q, position.r),
{
    match space {
        CoordinateSpace::HexAxial { width, height } | CoordinateSpace::Square { width, height } => {
            #[verifier::truncate]
            let w = *width as i32;
            #[verifier::truncate]
            let h = *height as i32;
            position.q >= 0 && position.r >= 0 && position.q < w && position.r < h
        },
        CoordinateSpace::Free2d | CoordinateSpace::Free3d => true,
    }
}

pub(crate) fn grid_dimensions_invalid(space: &CoordinateSpace) -> (r: bool)
    ensures
        r == dimensions_invalid(*space),
{
    match space {
        CoordinateSpace::HexAxial { width, height } | CoordinateSpace::Square { width, height } => *width
            == 0 || *height == 0,
        _ => false,
    }
}

/// What a Stage object is.
#[derive(Debug)]
pub enum StageObjectKind {
    Actor { definition: DocumentId },
    Trigger { activation: String, conditions: Vec<JsonValue>, effects: Vec<JsonValue> },
    SpawnPoint { profile: String },
    Marker { marker_type: String },
}

/// The runtime type of an object kind.
pub open spec fn runtime_type_name(kind: StageObjectKind) -> Seq<char> {
    match kind {
        StageObjectKind::Actor { .. } => ACTOR_OBJECT_TYPE@,
        StageObjectKind::Trigger { .. } => TRIGGER_OBJECT_TYPE@,
        StageObjectKind::SpawnPoint { .. } => SPAWN_OBJECT_TYPE@,
        StageObjectKind::Marker { .. } => MARKER_OBJECT_TYPE@,
    }
}

fn valid_type_id(value: &'static str) -> (id: EngineTypeId)
    requires
        value@.len() > 0,
        crate::ids::all_identifier_chars(value@),
    ensures
        id.view() == value@,
{
    proof {
        lemma_identifier_text(value@);
    }
    EngineTypeId::from_static(value)
}

impl StageObjectKind {
    /// The runtime type that objects of this kind compile to.
    pub fn runtime_type(&self) -> (t: EngineTypeId)
        ensures
            t.view() == runtime_type_name(*self),
    {
        match self {
            StageObjectKind::Actor { .. } => {
                proof {
                    reveal_strlit("tactical.actor");
                }
                valid_type_id(ACTOR_OBJECT_TYPE)
            },
            StageObjectKind::Trigger { .. } => {
                proof {
                    reveal_strlit("tactical.trigger");
                }
                valid_type_id(TRIGGER_OBJECT_TYPE)
            },
            StageObjectKind::SpawnPoint { .. } => {
                proof {
                    reveal_strlit("tactical.spawn_point");
                }
                valid_type_id(SPAWN_OBJECT_TYPE)
            },
            StageObjectKind::Marker { .. } => {
                proof {
                    reveal_strlit("tactical.marker");
                }
                valid_type_id(MARKER_OBJECT_TYPE)
            },
        }
    }
}

/// An object placed on a Stage.
#[derive(Debug)]
pub struct StageObject {
    pub id: ObjectId,
    pub position: HexCoord,
    pub object: StageObjectKind,
    pub properties: JsonValue,
}

/// A connection from a Stage to another.
#[derive(Debug)]
pub struct StageConnection {
    pub id: ObjectId,
    pub to_stage: DocumentId,
    pub entry_point: String,
}

/// A Stage authoring document.
#[derive(Debug)]
pub struct StageDocument {
    pub id: DocumentId,
    pub name: String,
    pub coordinate_space: CoordinateSpace,
    pub layers: Vec<String>,
    pub objects: Vec<StageObject>,
    pub connections: Vec<StageConnection>,
}

impl StageDocument {
    /// An empty hex Stage of the given size with one `gameplay` layer.
    pub fn new_hex(id: DocumentId, name: &str, width: u32, height: u32) -> (s: Self)
        ensures
            s.id == id,
            s.name@ == name@,
            s.coordinate_space == (CoordinateSpace::HexAxial { width, height }),
            s.layers@.len() == 1,
            s.layers@[0]@ == "gameplay"@,
            s.objects@.len() == 0,
            s.connections@.len() == 0,
    {
        let mut layers: Vec<String> = Vec::new();
        layers.push(string_of("gameplay"));
        StageDocument {
            id,
            name: string_of(name),
            coordinate_space: CoordinateSpace::HexAxial { width, height },
            layers,
            objects: Vec::new(),
            connections: Vec::new(),
        }
    }
}

/// The object at `i` repeats the identifier of an earlier object.
pub open spec fn repeats_earlier_id(objects: Seq<ObjectView>, i: int) -> bool {
    exists|j: int| 0 <= j < i && (#[trigger] objects[j]).id == objects[i].id
}

/// Whether an object is a spawn point.
pub open spec fn is_spawn(object: ObjectView) -> bool {
    object.object is SpawnPoint
}

/// An error located at an object of a Stage, with one suggested tool.
pub open spec fn object_error(
    code: Seq<char>,
    message: Seq<char>,
    stage: Seq<char>,
    object: Seq<char>,
    field: Seq<char>,
    tool: Seq<char>,
) -> DiagnosticView {
    DiagnosticView {
        code,
        severity: Severity::Error,
        message,
        location: Some(LocationView { document: Some(stage), object: Some(object), field_path: Some(field) }),
        suggested_tools: seq![tool],
        auto_fixable: false,
    }
}

/// The diagnostics of the object at `i`: a repeated identifier, then a position outside
/// the space.
pub open spec fn object_diags(stage: StageView, i: int) -> Seq<DiagnosticView> {
    let objects = stage.objects;
    let object = objects[i];
    let dup = if repeats_earlier_id(objects, i) {
        seq![
            object_error(
                "STAGE_DUPLICATE_OBJECT_ID"@,
                "duplicate object identifier: "@ + object.id,
                stage.id,
                object.id,
                "objects"@,
                "stage.rename_object"@,
            ),
        ]
    } else {
        Seq::empty()
    };
    let bounds = if !position_in_space(stage.coordinate_space, object.position.q, object.position.r) {
        seq![
            object_error(
                "STAGE_OBJECT_OUT_OF_BOUNDS"@,
                "object "@ + object.id + " is outside the Stage bounds"@,
                stage.id,
                object.id,
                "position"@,
                "stage.move_object"@,
            ),
        ]
    } else {
        Seq::empty()
    };
    dup + bounds
}

/// Per-object diagnostics, in object order.
pub open spec fn object_parts(stage: StageView) -> Seq<Seq<DiagnosticView>> {
    Seq::new(stage.objects.len(), |i: int| object_diags(stage, i))
}

/// The warning for a connection that leads back to its own Stage, if it does.
pub open spec fn connection_diags(stage: StageView, i: int) -> Seq<DiagnosticView> {
    let connection = stage.connections[i];
    if connection.to_stage == stage.id {
        seq![
            document_diagnostic(
                "STAGE_SELF_CONNECTION"@,
                Severity::Warning,
                "connection "@ + connection.id + " points to the same Stage"@,
                stage.id,
            ),
        ]
    } else {
        Seq::empty()
    }
}

/// Per-connection diagnostics, in connection order.
pub open spec fn connection_parts(stage: StageView) -> Seq<Seq<DiagnosticView>> {
    Seq::new(stage.connections.len(), |i: int| connection_diags(stage, i))
}

/// Whether any object is a spawn point.
pub open spec fn has_spawn(stage: StageView) -> bool {
    exists|i: int| 0 <= i < stage.objects.len() && is_spawn(#[trigger] stage.objects[i])
}

/// Everything `validate_stage` reports, in order: a zero grid dimension, each object's
/// repeated identifier and out-of-bounds position, a missing spawn point, and each
/// connection back to the Stage itself.
pub open spec fn stage_diags(stage: StageView) -> Seq<DiagnosticView> {
    let dims = if dimensions_invalid(stage.coordinate_space) {
        seq![
            document_diagnostic(
                "STAGE_DIMENSIONS_INVALID"@,
                Severity::Error,
                "grid Stage dimensions must be greater than zero"@,
                stage.id,
            ),
        ]
    } else {
        Seq::empty()
    };
    let spawn = if !has_spawn(stage) {
        seq![
            document_diagnostic(
                "STAGE_NO_SPAWN_POINT"@,
                Severity::Warning,
                "stage has no spawn point and cannot be entered by a standard preview profile"@,
                stage.id,
            ),
        ]
    } else {
        Seq::empty()
    };
    dims + object_parts(stage).flatten() + spawn + connection_parts(stage).flatten()
}

fn located_error(code: &str, message: String, stage: &DocumentId, object: &ObjectId, field: &str, tool: &str) -> (d: Diagnostic)
    ensures
        d.view() == object_error(code@, message@, stage.view(), object.view(), field@, tool@),
{
    let mut tools: Vec<String> = Vec::new();
    tools.push(string_of(tool));
    let d = Diagnostic {
        code: string_of(code),
        severity: Severity::Error,
        message,
        location: Some(
            DiagnosticLocation {
                document: Some(stage.clone()),
                object: Some(object.clone()),
                field_path: Some(string_of(field)),
            },
        ),
        suggested_tools: tools,
        auto_fixable: false,
    };
    assert(d.view().suggested_tools =~= seq![tool@]);
    d
}

fn framed(before: &str, middle: &str, after: &str) -> (m: String)
    ensures
        m@ == before@ + middle@ + after@,
{
    let mut m = string_of(before);
    push_str(&mut m, middle);
    push_str(&mut m, after);
    m
}

fn earlier_id(objects: &Vec<StageObject>, i: usize) -> (r: bool)
    requires
        i < objects@.len(),
    ensures
        r == repeats_earlier_id(objects_view(objects@), i as int),
{
    let mut j: usize = 0;
    while j < i
        invariant
            i < objects@.len(),
            j <= i,
            forall|k: int| 0 <= k < j ==> (#[trigger] objects@[k]).id.view() != objects@[i as int].id.view(),
        decreases i - j,
    {
        if objects[j].id.same(&objects[i].id) {
            assert(objects_view(objects@)[j as int].id == objects_view(objects@)[i as int].id);
            return true;
        }
        j = j + 1;
    }
    false
}

fn push_object_diags(stage: &StageDocument, i: usize, bag: &mut DiagnosticBag)
    requires
        i < stage.objects@.len(),
    ensures
        final(bag).view() == old(bag).view() + object_diags(stage.view(), i as int),
{
    let ghost start = bag.view();
    let object = &stage.objects[i];
    if earlier_id(&stage.objects, i) {
        let msg = framed("duplicate object identifier: ", object.id.as_str(), "");
        proof {
            reveal_strlit("");
        }
        bag.push(located_error("STAGE_DUPLICATE_OBJECT_ID", msg, &stage.id, &object.id, "objects", "stage.rename_object"));
    }
    if !stage_position_in_bounds(&stage.coordinate_space, object.position) {
        let msg = framed("object ", object.id.as_str(), " is outside the Stage bounds");
        bag.push(located_error("STAGE_OBJECT_OUT_OF_BOUNDS", msg, &stage.id, &object.id, "position", "stage.move_object"));
    }
    assert(bag.view() =~= start + object_diags(stage.view(), i as int));
}

/// Validates a Stage (see `stage_diags`).
pub fn validate_stage(stage: &StageDocument) -> (bag: DiagnosticBag)
    ensures
        bag.view() == stage_diags(stage.view()),
{
    let mut bag = DiagnosticBag::new();
    if grid_dimensions_invalid(&stage.coordinate_space) {
        bag.push(
            Diagnostic::error(
                "STAGE_DIMENSIONS_INVALID",
                string_of("grid Stage dimensions must be greater than zero"),
            ).at_document(stage.id.clone()),
        );
    }
    let ghost after_dims = bag.view();
    let ghost sv = stage.view();
    let ghost parts = object_parts(sv);
    let mut spawn = false;
    let mut i: usize = 0;
    while i < stage.objects.len()
        invariant
            i <= stage.objects@.len(),
            sv == stage.view(),
            parts == object_parts(sv),
            bag.view() == after_dims + parts.take(i as int).flatten(),
            spawn == exists|k: int| 0 <= k < i && is_spawn(#[trigger] sv.objects[k]),
        decreases stage.objects@.len() - i,
    {
        proof {
            lemma_flatten_step(parts, i as int);
        }
        push_object_diags(stage, i, &mut bag);
        if matches!(stage.objects[i].object, StageObjectKind::SpawnPoint { .. }) {
            spawn = true;
        }
        i = i + 1;
    }
    proof {
        lemma_flatten_all(parts);
    }
    if !spawn {
        bag.push(
            Diagnostic::warning(
                "STAGE_NO_SPAWN_POINT",
                string_of("stage has no spawn point and cannot be entered by a standard preview profile"),
            ).at_document(stage.id.clone()),
        );
    }
    let ghost after_spawn = bag.view();
    let ghost cparts = connection_parts(sv);
    let mut k: usize = 0;
    while k < stage.connections.len()
        invariant
            k <= stage.connections@.len(),
            sv == stage.view(),
            cparts == connection_parts(sv),
            bag.view() == after_spawn + cparts.take(k as int).flatten(),
        decreases stage.connections@.len() - k,
    {
        proof {
            lemma_flatten_step(cparts, k as int);
        }
        let connection = &stage.connections[k];
        let ghost before = bag.view();
        if connection.to_stage.same(&stage.id) {
            let msg = framed("connection ", connection.id.as_str(), " points to the same Stage");
            bag.push(Diagnostic::warning("STAGE_SELF_CONNECTION", msg).at_document(stage.id.clone()));
        }
        assert(bag.view() =~= before + cparts[k as int]);
        k = k + 1;
    }
    proof {
        lemma_flatten_all(cparts);
    }
    assert(bag.view() =~= stage_diags(sv));
    bag
}

} // verus!
