//! The JSON forms of a Stage's parts read back as the parts that were written.

use crate::command::input::{id_member, text_member};
use crate::ids::is_valid_identifier;
use crate::json::{member_get, JsonModel, NumberRepr};
use crate::stage::{CoordinateSpace, HexCoord};
use crate::stage_json::{
    connection_decode, connection_model, count_model, grid_decode, hex_decode, hex_decoder, hex_model, i32_field,
    int_model, kind_decode, kind_decoder, kind_model, list_field, object_decode, object_model, required,
    space_decode, space_model, text_model, trigger_decode, u32_field, ConnectionView, KindView, ObjectView,
};
use vstd::prelude::*;

verus! {

/// The identifiers of an object are valid.
pub open spec fn object_ids_valid(o: ObjectView) -> bool {
    &&& is_valid_identifier(o.id)
    &&& (o.object matches KindView::Actor { definition } ==> is_valid_identifier(definition))
}

/// The identifiers of a connection are valid.
pub open spec fn connection_ids_valid(c: ConnectionView) -> bool {
    is_valid_identifier(c.id) && is_valid_identifier(c.to_stage)
}

/// A member whose key no other member has is what `member_get` finds.
proof fn lemma_member_at(ms: Seq<(Seq<char>, JsonModel)>, k: int)
    requires
        0 <= k < ms.len(),
        forall|i: int| 0 <= i < k ==> (#[trigger] ms[i]).0 != ms[k].0,
    ensures
        member_get(ms, ms[k].0) == Some(ms[k].1),
{
    let key = ms[k].0;
    assert(ms[k].0 == key);
    let w = choose|i: int| 0 <= i < ms.len() && ms[i].0 == key && forall|j: int| 0 <= j < i ==> (#[trigger] ms[j]).0 != key;
    if w < k {
        assert(ms[w].0 != key);
    } else if w > k {
        assert(ms[k].0 != key);
    }
}

proof fn lemma_i32(ms: Seq<(Seq<char>, JsonModel)>, name: Seq<char>, n: i32)
    requires
        member_get(ms, name) == Some(int_model(n)),
    ensures
        i32_field(ms, name) == Ok::<i32, Seq<char>>(n),
{
}

proof fn lemma_u32(ms: Seq<(Seq<char>, JsonModel)>, name: Seq<char>, n: u32)
    requires
        member_get(ms, name) == Some(count_model(n)),
    ensures
        u32_field(ms, name) == Ok::<u32, Seq<char>>(n),
{
}

proof fn lemma_hex(c: HexCoord)
    ensures
        hex_decode(hex_model(c)) == Ok::<HexCoord, Seq<char>>(c),
{
    reveal_strlit("q");
    reveal_strlit("r");
    let ms = seq![("q"@, int_model(c.q)), ("r"@, int_model(c.r))];
    assert(ms[0].0[0] != ms[1].0[0]);
    lemma_member_at(ms, 0);
    lemma_member_at(ms, 1);
    lemma_i32(ms, "q"@, c.q);
    lemma_i32(ms, "r"@, c.r);
}

proof fn lemma_grid(kind: Seq<char>, width: u32, height: u32, hex: bool)
    ensures
        grid_decode(seq![("height"@, count_model(height)), ("kind"@, text_model(kind)), ("width"@, count_model(width))], hex)
            == Ok::<CoordinateSpace, Seq<char>>(
            if hex {
                CoordinateSpace::HexAxial { width, height }
            } else {
                CoordinateSpace::Square { width, height }
            },
        ),
{
    reveal_strlit("height");
    reveal_strlit("kind");
    reveal_strlit("width");
    let ms = seq![("height"@, count_model(height)), ("kind"@, text_model(kind)), ("width"@, count_model(width))];
    assert forall|i: int, k: int| 0 <= i < 3 && 0 <= k < 3 && i != k implies (#[trigger] ms[i]).0 != (#[trigger] ms[k]).0 by {
        assert(ms[i].0.len() != ms[k].0.len());
    }
    lemma_member_at(ms, 0);
    lemma_member_at(ms, 2);
    lemma_u32(ms, "width"@, width);
    lemma_u32(ms, "height"@, height);
}

/// A coordinate space reads back from its JSON form as itself.
pub proof fn lemma_space_round_trip(s: CoordinateSpace)
    ensures
        space_decode(space_model(s)) == Ok::<CoordinateSpace, Seq<char>>(s),
{
    reveal_strlit("kind");
    reveal_strlit("height");
    reveal_strlit("width");
    reveal_strlit("hex_axial");
    reveal_strlit("square");
    reveal_strlit("free2d");
    reveal_strlit("free3d");
    match s {
        CoordinateSpace::HexAxial { width, height } => {
            let ms = seq![("height"@, count_model(height)), ("kind"@, text_model("hex_axial"@)), ("width"@, count_model(width))];
            assert forall|i: int| 0 <= i < 3 && i != 1 implies (#[trigger] ms[i]).0 != ms[1].0 by {
                assert(ms[i].0.len() != ms[1].0.len());
            }
            lemma_member_at(ms, 1);
            lemma_grid("hex_axial"@, width, height, true);
        },
        CoordinateSpace::Square { width, height } => {
            let ms = seq![("height"@, count_model(height)), ("kind"@, text_model("square"@)), ("width"@, count_model(width))];
            assert forall|i: int| 0 <= i < 3 && i != 1 implies (#[trigger] ms[i]).0 != ms[1].0 by {
                assert(ms[i].0.len() != ms[1].0.len());
            }
            lemma_member_at(ms, 1);
            lemma_grid("square"@, width, height, false);
            assert("square"@ != "hex_axial"@) by {
                assert("square"@.len() != "hex_axial"@.len());
            }
        },
        CoordinateSpace::Free2d => {
            let ms = seq![("kind"@, text_model("free2d"@))];
            lemma_member_at(ms, 0);
            assert("free2d"@ != "hex_axial"@) by {
                assert("free2d"@.len() != "hex_axial"@.len());
            }
            assert("free2d"@ != "square"@) by {
                assert("free2d"@[0] != "square"@[0]);
            }
        },
        CoordinateSpace::Free3d => {
            let ms = seq![("kind"@, text_model("free3d"@))];
            lemma_member_at(ms, 0);
            assert("free3d"@ != "hex_axial"@) by {
                assert("free3d"@.len() != "hex_axial"@.len());
            }
            assert("free3d"@ != "square"@) by {
                assert("free3d"@[0] != "square"@[0]);
            }
            assert("free3d"@ != "free2d"@) by {
                assert("free3d"@[4] != "free2d"@[4]);
            }
        },
    }
}

proof fn lemma_list(ms: Seq<(Seq<char>, JsonModel)>, name: Seq<char>, xs: Seq<JsonModel>)
    requires
        member_get(ms, name) == Some(JsonModel::Array(xs)),
    ensures
        list_field(ms, name) == Ok::<Seq<JsonModel>, Seq<char>>(xs),
{
}

#[verifier::spinoff_prover]
proof fn lemma_actor(definition: Seq<char>)
    requires
        is_valid_identifier(definition),
    ensures
        kind_decode(kind_model(KindView::Actor { definition })) == Ok::<KindView, Seq<char>>(KindView::Actor { definition }),
{
    reveal_strlit("kind");
    reveal_strlit("actor");
    reveal_strlit("definition");
    let ms = seq![("definition"@, text_model(definition)), ("kind"@, text_model("actor"@))];
    assert(ms[0].0.len() == 10 && ms[1].0.len() == 4);
    lemma_member_at(ms, 0);
    lemma_member_at(ms, 1);
    lemma_id(ms, "definition"@, definition);
    assert(kind_model(KindView::Actor { definition }) == JsonModel::Object(ms));
}

#[verifier::spinoff_prover]
proof fn lemma_trigger(activation: Seq<char>, conditions: Seq<JsonModel>, effects: Seq<JsonModel>)
    ensures
        kind_decode(kind_model(KindView::Trigger { activation, conditions, effects })) == Ok::<KindView, Seq<char>>(
            KindView::Trigger { activation, conditions, effects },
        ),
{
    reveal_strlit("kind");
    reveal_strlit("actor");
    reveal_strlit("trigger");
    reveal_strlit("activation");
    reveal_strlit("conditions");
    reveal_strlit("effects");
    let ms = seq![
        ("activation"@, text_model(activation)),
        ("conditions"@, JsonModel::Array(conditions)),
        ("effects"@, JsonModel::Array(effects)),
        ("kind"@, text_model("trigger"@)),
    ];
    assert(ms[0].0.len() == 10 && ms[1].0.len() == 10 && ms[2].0.len() == 7 && ms[3].0.len() == 4);
    assert(ms[0].0[0] != ms[1].0[0]);
    lemma_member_at(ms, 0);
    lemma_member_at(ms, 1);
    lemma_member_at(ms, 2);
    lemma_member_at(ms, 3);
    lemma_text(ms, "activation"@, activation);
    lemma_list(ms, "conditions"@, conditions);
    lemma_list(ms, "effects"@, effects);
    assert("trigger"@.len() != "actor"@.len());
    assert(trigger_decode(ms) == Ok::<KindView, Seq<char>>(KindView::Trigger { activation, conditions, effects }));
    assert(kind_model(KindView::Trigger { activation, conditions, effects }) == JsonModel::Object(ms));
}

#[verifier::spinoff_prover]
proof fn lemma_spawn(profile: Seq<char>)
    ensures
        kind_decode(kind_model(KindView::SpawnPoint { profile })) == Ok::<KindView, Seq<char>>(KindView::SpawnPoint { profile }),
{
    reveal_strlit("kind");
    reveal_strlit("actor");
    reveal_strlit("trigger");
    reveal_strlit("spawn_point");
    reveal_strlit("profile");
    let ms = seq![("kind"@, text_model("spawn_point"@)), ("profile"@, text_model(profile))];
    assert(ms[0].0.len() == 4 && ms[1].0.len() == 7);
    lemma_member_at(ms, 0);
    lemma_member_at(ms, 1);
    lemma_text(ms, "profile"@, profile);
    assert("spawn_point"@.len() != "actor"@.len());
    assert("spawn_point"@.len() != "trigger"@.len());
    assert(kind_model(KindView::SpawnPoint { profile }) == JsonModel::Object(ms));
}

#[verifier::spinoff_prover]
proof fn lemma_marker(marker_type: Seq<char>)
    ensures
        kind_decode(kind_model(KindView::Marker { marker_type })) == Ok::<KindView, Seq<char>>(KindView::Marker { marker_type }),
{
    reveal_strlit("kind");
    reveal_strlit("actor");
    reveal_strlit("trigger");
    reveal_strlit("spawn_point");
    reveal_strlit("marker");
    reveal_strlit("marker_type");
    let ms = seq![("kind"@, text_model("marker"@)), ("marker_type"@, text_model(marker_type))];
    assert(ms[0].0.len() == 4 && ms[1].0.len() == 11);
    lemma_member_at(ms, 0);
    lemma_member_at(ms, 1);
    lemma_text(ms, "marker_type"@, marker_type);
    assert("marker"@.len() != "actor"@.len());
    assert("marker"@.len() != "trigger"@.len());
    assert("marker"@.len() != "spawn_point"@.len());
    assert(kind_model(KindView::Marker { marker_type }) == JsonModel::Object(ms));
}

/// An object kind whose actor definition is a valid identifier reads back from its JSON
/// form as itself.
pub proof fn lemma_kind_round_trip(k: KindView)
    requires
        k matches KindView::Actor { definition } ==> is_valid_identifier(definition),
    ensures
        kind_decode(kind_model(k)) == Ok::<KindView, Seq<char>>(k),
{
    match k {
        KindView::Actor { definition } => lemma_actor(definition),
        KindView::Trigger { activation, conditions, effects } => lemma_trigger(activation, conditions, effects),
        KindView::SpawnPoint { profile } => lemma_spawn(profile),
        KindView::Marker { marker_type } => lemma_marker(marker_type),
    }
}

#[verifier::spinoff_prover]
#[verifier::rlimit(80)]
proof fn lemma_object_parts(id: Seq<char>, km: JsonModel, hm: JsonModel, properties: JsonModel, object: KindView, position: HexCoord)
    requires
        is_valid_identifier(id),
        kind_decode(km) == Ok::<KindView, Seq<char>>(object),
        hex_decode(hm) == Ok::<HexCoord, Seq<char>>(position),
    ensures
        object_decode(JsonModel::Object(seq![("id"@, text_model(id)), ("object"@, km), ("position"@, hm), ("properties"@, properties)]))
            == Ok::<ObjectView, Seq<char>>(ObjectView { id, position, object, properties }),
{
    reveal_strlit("id");
    reveal_strlit("object");
    reveal_strlit("position");
    reveal_strlit("properties");
    let ms = seq![("id"@, text_model(id)), ("object"@, km), ("position"@, hm), ("properties"@, properties)];
    assert(ms[0].0.len() == 2 && ms[1].0.len() == 6 && ms[2].0.len() == 8 && ms[3].0.len() == 10);
    lemma_member_at(ms, 0);
    lemma_member_at(ms, 1);
    lemma_member_at(ms, 2);
    lemma_member_at(ms, 3);
    lemma_id(ms, "id"@, id);
    assert(required(ms, "position"@, hex_decoder()) == Ok::<HexCoord, Seq<char>>(position));
    assert(required(ms, "object"@, kind_decoder()) == Ok::<KindView, Seq<char>>(object));
}

/// A Stage object whose identifiers are valid reads back from its JSON form as itself.
pub proof fn lemma_object_round_trip(o: ObjectView)
    requires
        object_ids_valid(o),
    ensures
        object_decode(object_model(o)) == Ok::<ObjectView, Seq<char>>(o),
{
    lemma_hex(o.position);
    lemma_kind_round_trip(o.object);
    lemma_object_parts(o.id, kind_model(o.object), hex_model(o.position), o.properties, o.object, o.position);
}

proof fn lemma_id(ms: Seq<(Seq<char>, JsonModel)>, name: Seq<char>, v: Seq<char>)
    requires
        member_get(ms, name) == Some(text_model(v)),
        is_valid_identifier(v),
    ensures
        id_member(ms, name) == Ok::<Seq<char>, Seq<char>>(v),
{
}

proof fn lemma_text(ms: Seq<(Seq<char>, JsonModel)>, name: Seq<char>, v: Seq<char>)
    requires
        member_get(ms, name) == Some(text_model(v)),
    ensures
        text_member(ms, name) == Ok::<Seq<char>, Seq<char>>(v),
{
}

#[verifier::spinoff_prover]
/// A Stage connection whose identifiers are valid reads back from its JSON form as itself.
pub proof fn lemma_connection_round_trip(c: ConnectionView)
    requires
        connection_ids_valid(c),
    ensures
        connection_decode(connection_model(c)) == Ok::<ConnectionView, Seq<char>>(c),
{
    reveal_strlit("entry_point");
    reveal_strlit("id");
    reveal_strlit("to_stage");
    let ms = seq![
        ("entry_point"@, text_model(c.entry_point)),
        ("id"@, text_model(c.id)),
        ("to_stage"@, text_model(c.to_stage)),
    ];
    assert(ms[0].0.len() == 11 && ms[1].0.len() == 2 && ms[2].0.len() == 8);
    lemma_member_at(ms, 0);
    lemma_member_at(ms, 1);
    lemma_member_at(ms, 2);
    lemma_id(ms, "id"@, c.id);
    lemma_id(ms, "to_stage"@, c.to_stage);
    lemma_text(ms, "entry_point"@, c.entry_point);
    assert(connection_model(c) == JsonModel::Object(ms));
}

} // verus!
