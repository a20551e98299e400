use super::{AdditionalProperties, FieldSchema, NumericBound, SchemaNode, ValueKind, SCHEMA_DIALECT_VERSION};
use crate::json::{
    items_model, json_clone, lemma_model_parts, member_set, members_model, model, set_member,
    Dyadic, JsonModel, JsonNumber, JsonValue, NumberRepr,
};
use crate::text::{decimal_string, string_of};
use vstd::prelude::*;

verus! {

/// The JSON Schema `type` of a value kind (`Any` has none).
pub open spec fn schema_type_name(kind: ValueKind) -> Option<Seq<char>> {
    match kind {
        ValueKind::Any => None,
        ValueKind::String => Some("string"@),
        ValueKind::Integer => Some("integer"@),
        ValueKind::Number => Some("number"@),
        ValueKind::Boolean => Some("boolean"@),
        ValueKind::Object => Some("object"@),
        ValueKind::Array => Some("array"@),
    }
}

/// A JSON text value.
pub open spec fn text_value(s: Seq<char>) -> JsonModel {
    JsonModel::String(s)
}

/// A non-negative JSON integer.
pub open spec fn count_value(n: u32) -> JsonModel {
    JsonModel::Number(NumberRepr::PosInt(n as u64))
}

/// Sets `key` when `value` is present.
pub open spec fn set_count(
    ms: Seq<(Seq<char>, JsonModel)>,
    key: Seq<char>,
    value: Option<u32>,
) -> Seq<(Seq<char>, JsonModel)> {
    match value {
        Some(n) => member_set(ms, key, count_value(n)),
        None => ms,
    }
}

/// Sets `key` to a numeric bound when it is present.
pub open spec fn set_bound(
    ms: Seq<(Seq<char>, JsonModel)>,
    key: Seq<char>,
    value: Option<NumericBound>,
) -> Seq<(Seq<char>, JsonModel)> {
    match value {
        Some(b) => member_set(ms, key, JsonModel::Number(NumberRepr::Float(b.value))),
        None => ms,
    }
}

/// The `type`, `description` and nullable `type` keywords, in the order they are set.
pub open spec fn typed_members(node: SchemaNode) -> Seq<(Seq<char>, JsonModel)> {
    let m0 = Seq::<(Seq<char>, JsonModel)>::empty();
    let m1 = match schema_type_name(node.kind) {
        Some(t) => member_set(m0, "type"@, text_value(t)),
        None => m0,
    };
    let m2 = if node.description@.len() > 0 {
        member_set(m1, "description"@, text_value(node.description@))
    } else {
        m1
    };
    let base = match schema_type_name(node.kind) {
        Some(t) => t,
        None => "any"@,
    };
    if node.nullable {
        member_set(m2, "type"@, JsonModel::Array(seq![text_value(base), text_value("null"@)]))
    } else {
        m2
    }
}

/// Then `default` and `enum`.
pub open spec fn valued_members(node: SchemaNode) -> Seq<(Seq<char>, JsonModel)> {
    let m3 = typed_members(node);
    let m4 = match node.default {
        Some(d) => member_set(m3, "default"@, model(d)),
        None => m3,
    };
    match node.enum_values {
        Some(vs) => member_set(m4, "enum"@, JsonModel::Array(items_model(vs@))),
        None => m4,
    }
}

/// The keywords of a schema that do not nest, in the order they are set: the above, then
/// `minimum`, `maximum`, `minLength`, `maxLength`, `minItems`, `maxItems`, `uniqueItems`.
pub open spec fn head_members(node: SchemaNode) -> Seq<(Seq<char>, JsonModel)> {
    let m6 = set_bound(valued_members(node), "minimum"@, node.minimum);
    let m7 = set_bound(m6, "maximum"@, node.maximum);
    let m8 = set_count(m7, "minLength"@, node.min_length);
    let m9 = set_count(m8, "maxLength"@, node.max_length);
    let m10 = set_count(m9, "minItems"@, node.min_items);
    let m11 = set_count(m10, "maxItems"@, node.max_items);
    if node.unique_items {
        member_set(m11, "uniqueItems"@, JsonModel::Bool(true))
    } else {
        m11
    }
}

/// The names of the required fields, in order.
pub open spec fn required_names(fields: Seq<FieldSchema>) -> Seq<JsonModel>
    decreases fields.len(),
{
    if fields.len() == 0 {
        Seq::empty()
    } else {
        let prev = required_names(fields.drop_last());
        if fields.last().required {
            prev.push(text_value(fields.last().name@))
        } else {
            prev
        }
    }
}

/// The rendered schema: an object whose members are set in keyword order (a later set of
/// a keyword replaces its value), ending with `x-schema-version`.
pub open spec fn json_schema(node: SchemaNode) -> JsonModel
    decreases node, 2nat, 0int,
{
    let head = head_members(node);
    let with_items = match node.items {
        Some(item_schema) => member_set(head, "items"@, json_schema(*item_schema)),
        None => head,
    };
    let with_object = if node.kind == ValueKind::Object {
        let p = member_set(
            with_items,
            "properties"@,
            JsonModel::Object(properties(node, node.fields@.len() as int)),
        );
        let names = required_names(node.fields@);
        let r = if names.len() > 0 {
            member_set(p, "required"@, JsonModel::Array(names))
        } else {
            p
        };
        member_set(
            r,
            "additionalProperties"@,
            JsonModel::Bool(node.additional_properties == AdditionalProperties::Allowed),
        )
    } else {
        with_items
    };
    JsonModel::Object(
        member_set(
            with_object,
            "x-schema-version"@,
            JsonModel::Number(NumberRepr::PosInt(SCHEMA_DIALECT_VERSION as u64)),
        ),
    )
}

/// The `properties` object after the first `k` fields (a repeated name keeps its first
/// position and takes the later schema).
pub open spec fn properties(node: SchemaNode, k: int) -> Seq<(Seq<char>, JsonModel)>
    decreases node, 0nat, k,
{
    if k <= 0 || k > node.fields@.len() {
        Seq::empty()
    } else {
        member_set(
            properties(node, k - 1),
            node.fields@[k - 1].name@,
            json_schema(node.fields@[k - 1].schema),
        )
    }
}

fn text_json(s: &str) -> (v: JsonValue)
    ensures
        model(v) == text_value(s@),
{
    JsonValue::String(string_of(s))
}

fn count_json(n: u32) -> (v: JsonValue)
    ensures
        model(v) == count_value(n),
{
    JsonValue::Number(
        JsonNumber {
            repr: NumberRepr::PosInt(n as u64),
            approx: Dyadic { mantissa: n as i64, exponent: 0 },
            text: decimal_string(n as u64),
            json_text: decimal_string(n as u64),
        },
    )
}

fn put_count(ms: &mut Vec<(String, JsonValue)>, key: &str, value: Option<u32>)
    ensures
        members_model(final(ms)@) == set_count(members_model(old(ms)@), key@, value),
{
    match value {
        Some(n) => set_member(ms, string_of(key), count_json(n)),
        None => {},
    }
}

fn put_bound(ms: &mut Vec<(String, JsonValue)>, key: &str, value: &Option<NumericBound>)
    ensures
        members_model(final(ms)@) == set_bound(members_model(old(ms)@), key@, *value),
{
    match value {
        Some(b) => {
            let n = JsonNumber {
                repr: NumberRepr::Float(b.value),
                approx: b.value,
                text: b.text.clone(),
                json_text: b.json_text.clone(),
            };
            set_member(ms, string_of(key), JsonValue::Number(n));
        },
        None => {},
    }
}

impl ValueKind {
    /// The JSON Schema `type` of this kind (see `schema_type_name`).
    pub fn json_schema_type(self) -> (t: Option<&'static str>)
        ensures
            match t {
                Some(s) => schema_type_name(self) == Some(s@),
                None => schema_type_name(self) is None,
            },
    {
        match self {
            ValueKind::Any => None,
            ValueKind::String => Some("string"),
            ValueKind::Integer => Some("integer"),
            ValueKind::Number => Some("number"),
            ValueKind::Boolean => Some("boolean"),
            ValueKind::Object => Some("object"),
            ValueKind::Array => Some("array"),
        }
    }
}

impl AdditionalProperties {
    /// Whether unnamed members are allowed.
    pub fn is_allowed(&self) -> (r: bool)
        ensures
            r == (*self == AdditionalProperties::Allowed),
    {
        matches!(self, AdditionalProperties::Allowed)
    }
}

impl SchemaNode {
    fn typed_json(&self) -> (ms: Vec<(String, JsonValue)>)
        ensures
            members_model(ms@) == typed_members(*self),
    {
        let mut ms: Vec<(String, JsonValue)> = Vec::new();
        let ghost m0 = members_model(ms@);
        assert(m0 =~= Seq::<(Seq<char>, JsonModel)>::empty());
        let t = self.kind.json_schema_type();
        match t {
            Some(name) => set_member(&mut ms, string_of("type"), text_json(name)),
            None => {},
        }
        if !self.description.as_str().is_empty() {
            set_member(&mut ms, string_of("description"), JsonValue::String(self.description.clone()));
        }
        if self.nullable {
            let base = match t {
                Some(name) => text_json(name),
                None => text_json("any"),
            };
            let null_text = text_json("null");
            let mut both: Vec<JsonValue> = Vec::new();
            both.push(base);
            both.push(null_text);
            let ghost parts = both@;
            let pair = JsonValue::Array(both);
            proof {
                lemma_model_parts(pair);
                reveal_strlit("any");
                assert(items_model(parts) =~= seq![model(parts[0]), model(parts[1])]);
            }
            set_member(&mut ms, string_of("type"), pair);
        }
        ms
    }

    fn put_values(&self, ms: &mut Vec<(String, JsonValue)>)
        requires
            members_model(old(ms)@) == typed_members(*self),
        ensures
            members_model(final(ms)@) == valued_members(*self),
    {
        match &self.default {
            Some(d) => set_member(ms, string_of("default"), json_clone(d)),
            None => {},
        }
        match &self.enum_values {
            Some(vs) => {
                let mut out: Vec<JsonValue> = Vec::new();
                let mut i: usize = 0;
                while i < vs.len()
                    invariant
                        i <= vs@.len(),
                        out@.len() == i,
                        forall|j: int| 0 <= j < i ==> model(#[trigger] out@[j]) == model(vs@[j]),
                    decreases vs@.len() - i,
                {
                    out.push(json_clone(&vs[i]));
                    i = i + 1;
                }
                let arr = JsonValue::Array(out);
                proof {
                    lemma_model_parts(arr);
                    assert(items_model(out@) =~= items_model(vs@));
                }
                set_member(ms, string_of("enum"), arr);
            },
            None => {},
        }
    }

    fn head_json(&self) -> (ms: Vec<(String, JsonValue)>)
        ensures
            members_model(ms@) == head_members(*self),
    {
        let mut ms = self.typed_json();
        self.put_values(&mut ms);
        put_bound(&mut ms, "minimum", &self.minimum);
        put_bound(&mut ms, "maximum", &self.maximum);
        put_count(&mut ms, "minLength", self.min_length);
        put_count(&mut ms, "maxLength", self.max_length);
        put_count(&mut ms, "minItems", self.min_items);
        put_count(&mut ms, "maxItems", self.max_items);
        if self.unique_items {
            set_member(&mut ms, string_of("uniqueItems"), JsonValue::Bool(true));
        }
        ms
    }

    /// The schema as a JSON Schema document (see `json_schema`).
    pub fn to_json_schema(&self) -> (r: JsonValue)
        ensures
            model(r) == json_schema(*self),
        decreases self, 2nat,
    {
        let mut ms = self.head_json();
        match &self.items {
            Some(item_schema) => {
                proof {
                    assert(decreases_to!(*self => self.items));
                    assert(decreases_to!(*self => self.items->Some_0));
                }
                let rendered = item_schema.to_json_schema();
                set_member(&mut ms, string_of("items"), rendered);
            },
            None => {},
        }
        let ghost with_items = members_model(ms@);
        if self.kind == ValueKind::Object {
            let props = self.properties_json();
            let p = JsonValue::Object(props);
            proof {
                lemma_model_parts(p);
            }
            set_member(&mut ms, string_of("properties"), p);
            let names = required_json(&self.fields);
            if names.len() > 0 {
                let arr = JsonValue::Array(names);
                proof {
                    lemma_model_parts(arr);
                }
                set_member(&mut ms, string_of("required"), arr);
            }
            let allowed = self.additional_properties.is_allowed();
            set_member(&mut ms, string_of("additionalProperties"), JsonValue::Bool(allowed));
        }
        set_member(&mut ms, string_of("x-schema-version"), count_json(SCHEMA_DIALECT_VERSION));
        let r = JsonValue::Object(ms);
        proof {
            lemma_model_parts(r);
        }
        r
    }

    #[verifier::spinoff_prover]
    #[verifier::rlimit(40)]
    fn properties_json(&self) -> (r: Vec<(String, JsonValue)>)
        ensures
            members_model(r@) == properties(*self, self.fields@.len() as int),
        decreases self, 1nat,
    {
        let mut props: Vec<(String, JsonValue)> = Vec::new();
        assert(members_model(props@) =~= properties(*self, 0));
        let mut k: usize = 0;
        while k < self.fields.len()
            invariant
                k <= self.fields@.len(),
                members_model(props@) == properties(*self, k as int),
            decreases self.fields@.len() - k,
        {
            let field = &self.fields[k];
            proof {
                vstd::std_specs::vec::axiom_vec_index_decreases(self.fields, k as int);
                assert(decreases_to!(*self => self.fields));
                assert(decreases_to!(*self => self.fields@[k as int].schema));
            }
            let rendered = field.schema.to_json_schema();
            set_member(&mut props, field.name.clone(), rendered);
            k = k + 1;
        }
        props
    }
}

fn required_json(fields: &Vec<FieldSchema>) -> (r: Vec<JsonValue>)
    ensures
        items_model(r@) == required_names(fields@),
{
    let mut out: Vec<JsonValue> = Vec::new();
    let mut i: usize = 0;
    assert(fields@.take(0) =~= Seq::<FieldSchema>::empty());
    assert(items_model(out@) =~= Seq::<JsonModel>::empty());
    while i < fields.len()
        invariant
            i <= fields@.len(),
            items_model(out@) == required_names(fields@.take(i as int)),
        decreases fields@.len() - i,
    {
        let ghost before = out@;
        assert(fields@.take(i as int + 1).drop_last() =~= fields@.take(i as int));
        assert(fields@.take(i as int + 1).last() == fields@[i as int]);
        if fields[i].required {
            out.push(JsonValue::String(fields[i].name.clone()));
            assert(items_model(out@) =~= items_model(before).push(text_value(fields@[i as int].name@)));
        }
        i = i + 1;
    }
    assert(fields@.take(fields@.len() as int) =~= fields@);
    out
}


} // verus!
