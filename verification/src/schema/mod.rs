use crate::diagnostics::{field_error, Diagnostic, DiagnosticBag, DiagnosticView};
use crate::json::{
    member_value,
    dyadic_less, dyadic_lt, find_key, find_member, is_null, json_equal, json_type_name, kind_name,
    members_model, model, Dyadic, JsonModel, JsonValue,
};
use crate::text::{chars_of, decimal, push_char, push_decimal, push_str, string_of};
use crate::json_text::{push_json, render};
use crate::keyed::{lemma_flatten_all, lemma_flatten_step};
use vstd::prelude::*;

pub mod normalize;
pub mod render;
pub mod registry;
pub mod builder;

verus! {

/// Version of this schema dialect, rendered as `x-schema-version`.
pub const SCHEMA_DIALECT_VERSION: u32 = 1;

pub const COMMAND_INPUT_REQUIRED: &'static str = "COMMAND_INPUT_REQUIRED";
pub const COMMAND_INPUT_TYPE_MISMATCH: &'static str = "COMMAND_INPUT_TYPE_MISMATCH";
pub const COMMAND_INPUT_NULL_NOT_ALLOWED: &'static str = "COMMAND_INPUT_NULL_NOT_ALLOWED";
pub const COMMAND_INPUT_ENUM_MISMATCH: &'static str = "COMMAND_INPUT_ENUM_MISMATCH";
pub const COMMAND_INPUT_CONSTRAINT_FAILED: &'static str = "COMMAND_INPUT_CONSTRAINT_FAILED";
pub const COMMAND_INPUT_ADDITIONAL_PROPERTY: &'static str = "COMMAND_INPUT_ADDITIONAL_PROPERTY";
pub const SCHEMA_DEFINITION_INVALID: &'static str = "SCHEMA_DEFINITION_INVALID";

/// The kind of value a schema node accepts.
#[derive(Debug, Clone, Copy, PartialEq, Eq, Hash, Structural)]
pub enum ValueKind {
    Any,
    String,
    Integer,
    Number,
    Boolean,
    Object,
    Array,
}

/// Whether an object may hold members that its schema does not name.
#[derive(Debug, Clone, Copy, PartialEq, Eq, Structural)]
pub enum AdditionalProperties {
    Allowed,
    Forbidden,
}

/// A numeric bound: its exact value as a double, that double as Rust displays it, and as
/// JSON renders it.
#[derive(Debug, Clone)]
pub struct NumericBound {
    pub value: Dyadic,
    pub text: String,
    pub json_text: String,
}

/// A node of the schema dialect.
#[derive(Debug)]
pub struct SchemaNode {
    pub kind: ValueKind,
    pub description: String,
    pub nullable: bool,
    pub default: Option<JsonValue>,
    pub enum_values: Option<Vec<JsonValue>>,
    pub minimum: Option<NumericBound>,
    pub maximum: Option<NumericBound>,
    pub min_length: Option<u32>,
    pub max_length: Option<u32>,
    pub min_items: Option<u32>,
    pub max_items: Option<u32>,
    pub unique_items: bool,
    pub items: Option<Box<SchemaNode>>,
    pub fields: Vec<FieldSchema>,
    pub additional_properties: AdditionalProperties,
}

/// A named member of an object schema.
#[derive(Debug)]
pub struct FieldSchema {
    pub name: String,
    pub required: bool,
    pub schema: SchemaNode,
}

// ---------------------------------------------------------------------------
// JSON pointers
// ---------------------------------------------------------------------------

/// The escape of one character in a JSON pointer segment.
pub open spec fn escape_char(c: char) -> Seq<char> {
    if c == '~' {
        seq!['~', '0']
    } else if c == '/' {
        seq!['~', '1']
    } else {
        seq![c]
    }
}

/// A JSON pointer segment with `~` written `~0` and `/` written `~1`.
pub open spec fn escape_segment(s: Seq<char>) -> Seq<char>
    decreases s.len(),
{
    if s.len() == 0 {
        Seq::empty()
    } else {
        escape_segment(s.drop_last()) + escape_char(s.last())
    }
}

/// `base/segment`, with the segment escaped.
pub open spec fn pointer(base: Seq<char>, segment: Seq<char>) -> Seq<char> {
    base.push('/') + escape_segment(segment)
}

/// `base/index`.
pub open spec fn index_pointer(base: Seq<char>, index: nat) -> Seq<char> {
    base.push('/') + decimal(index)
}

/// Escapes a JSON pointer segment (RFC 6901).
pub fn escape_pointer_segment(segment: &str) -> (out: String)
    ensures
        out@ == escape_segment(segment@),
{
    let chars = chars_of(segment);
    let mut out = String::new();
    let mut i: usize = 0;
    while i < chars.len()
        invariant
            chars@ == segment@,
            i <= chars@.len(),
            out@ == escape_segment(segment@.take(i as int)),
        decreases chars@.len() - i,
    {
        let c = chars[i];
        if c == '~' {
            push_char(&mut out, '~');
            push_char(&mut out, '0');
        } else if c == '/' {
            push_char(&mut out, '~');
            push_char(&mut out, '1');
        } else {
            push_char(&mut out, c);
        }
        assert(segment@.take(i as int + 1).drop_last() =~= segment@.take(i as int));
        assert(out@ =~= escape_segment(segment@.take(i as int + 1)));
        i = i + 1;
    }
    assert(segment@.take(chars@.len() as int) =~= segment@);
    out
}

/// `base/segment`, with the segment escaped.
pub fn append_pointer(base: &str, segment: &str) -> (out: String)
    ensures
        out@ == pointer(base@, segment@),
{
    let mut out = string_of(base);
    push_char(&mut out, '/');
    let escaped = escape_pointer_segment(segment);
    push_str(&mut out, escaped.as_str());
    out
}

fn append_index(base: &str, index: usize) -> (out: String)
    ensures
        out@ == index_pointer(base@, index as nat),
{
    let mut out = string_of(base);
    push_char(&mut out, '/');
    push_decimal(&mut out, index as u64);
    out
}

// ---------------------------------------------------------------------------
// Value validation: what the diagnostics are
// ---------------------------------------------------------------------------

/// `"expected <kind>, got <kind of value>"`.
pub open spec fn mismatch_message(expected: Seq<char>, v: JsonValue) -> Seq<char> {
    "expected "@ + expected + ", got "@ + json_type_name(model(v))
}

/// A type-mismatch diagnostic.
pub open spec fn mismatch(expected: Seq<char>, v: JsonValue, path: Seq<char>) -> DiagnosticView {
    field_error(COMMAND_INPUT_TYPE_MISMATCH@, mismatch_message(expected, v), path)
}

/// A failed-constraint diagnostic.
pub open spec fn constraint(message: Seq<char>, path: Seq<char>) -> DiagnosticView {
    field_error(COMMAND_INPUT_CONSTRAINT_FAILED@, message, path)
}

/// Whether `v` equals one of the options.
pub open spec fn enum_contains(options: Seq<JsonValue>, v: JsonValue) -> bool {
    exists|i: int| 0 <= i < options.len() && model(#[trigger] options[i]) == model(v)
}

/// The enum-mismatch message.
pub open spec fn enum_message(options: Seq<JsonValue>) -> Seq<char> {
    "value does not match any allowed enum option: ["@ + option_texts(options).flatten() + "]"@
}

/// The options as JSON texts, separated by `", "`.
pub open spec fn option_texts(options: Seq<JsonValue>) -> Seq<Seq<char>> {
    Seq::new(
        options.len(),
        |i: int|
            (if i == 0 {
                Seq::empty()
            } else {
                ", "@
            }) + render(options[i]),
    )
}

/// Length bound diagnostics for a count (`what` names the bound keywords).
pub open spec fn length_diags(
    subject: Seq<char>,
    len: u32,
    min: Option<u32>,
    min_name: Seq<char>,
    max: Option<u32>,
    max_name: Seq<char>,
    path: Seq<char>,
) -> Seq<DiagnosticView> {
    (match min {
        Some(m) => if len < m {
            seq![
                constraint(
                    subject + " length "@ + decimal(len as nat) + " is less than "@ + min_name
                        + " "@ + decimal(m as nat),
                    path,
                ),
            ]
        } else {
            Seq::empty()
        },
        None => Seq::empty(),
    }) + (match max {
        Some(m) => if len > m {
            seq![
                constraint(
                    subject + " length "@ + decimal(len as nat) + " is greater than "@ + max_name
                        + " "@ + decimal(m as nat),
                    path,
                ),
            ]
        } else {
            Seq::empty()
        },
        None => Seq::empty(),
    })
}

/// Bound diagnostics for a number whose value as a double is `value`.
pub open spec fn numeric_diags(
    node: SchemaNode,
    value: Dyadic,
    text: Seq<char>,
    path: Seq<char>,
) -> Seq<DiagnosticView> {
    (match node.minimum {
        Some(b) => if dyadic_lt(value, b.value) {
            seq![constraint("value "@ + text + " is less than minimum "@ + b.text@, path)]
        } else {
            Seq::empty()
        },
        None => Seq::empty(),
    }) + (match node.maximum {
        Some(b) => if dyadic_lt(b.value, value) {
            seq![constraint("value "@ + text + " is greater than maximum "@ + b.text@, path)]
        } else {
            Seq::empty()
        },
        None => Seq::empty(),
    })
}

/// Whether some field of the schema is named `key`.
pub open spec fn names_field(fields: Seq<FieldSchema>, key: Seq<char>) -> bool {
    exists|k: int| 0 <= k < fields.len() && (#[trigger] fields[k]).name@ == key
}

/// Index of the first later element equal to element `i`, if any.
pub open spec fn first_duplicate(xs: Seq<JsonValue>, i: int) -> Option<int> {
    if exists|j: int| i < j < xs.len() && model(#[trigger] xs[j]) == model(xs[i]) {
        Some(
            choose|j: int|
                i < j < xs.len() && model(xs[j]) == model(xs[i]) && forall|k: int|
                    i < k < j ==> model(#[trigger] xs[k]) != model(xs[i]),
        )
    } else {
        None
    }
}

/// The duplicate-item diagnostic for element `i`, if it has a later equal element.
pub open spec fn duplicate_diag(xs: Seq<JsonValue>, i: int, path: Seq<char>) -> Seq<DiagnosticView> {
    match first_duplicate(xs, i) {
        Some(j) => seq![
            constraint(
                "array items at indices "@ + decimal(i as nat) + " and "@ + decimal(j as nat)
                    + " are duplicates"@,
                index_pointer(path, i as nat),
            ),
        ],
        None => Seq::empty(),
    }
}

/// The diagnostic for a member that the schema does not name, when they are forbidden.
pub open spec fn additional_diag(fields: Seq<FieldSchema>, key: Seq<char>, path: Seq<char>) -> Seq<DiagnosticView> {
    if names_field(fields, key) {
        Seq::empty()
    } else {
        seq![
            field_error(
                COMMAND_INPUT_ADDITIONAL_PROPERTY@,
                "additional property `"@ + key + "` is not allowed"@,
                pointer(path, key),
            ),
        ]
    }
}

/// The diagnostics of one field of an object schema against the object's members.
pub open spec fn field_diags(
    field: FieldSchema,
    members: Seq<(String, JsonValue)>,
    path: Seq<char>,
    nested: Seq<DiagnosticView>,
) -> Seq<DiagnosticView> {
    let fp = pointer(path, field.name@);
    match find_key(members_model(members), field.name@) {
        Some(idx) => {
            let fv = members[idx].1;
            if !(model(fv) is Null) || field.schema.nullable {
                nested
            } else if field.required {
                seq![
                    field_error(
                        COMMAND_INPUT_NULL_NOT_ALLOWED@,
                        "field `"@ + field.name@ + "` does not allow null"@,
                        fp,
                    ),
                ]
            } else {
                Seq::empty()
            }
        },
        None => if field.required && field.schema.default is None {
            seq![
                field_error(
                    COMMAND_INPUT_REQUIRED@,
                    "required field `"@ + field.name@ + "` is missing"@,
                    fp,
                ),
            ]
        } else {
            Seq::empty()
        },
    }
}

/// The diagnostics of field `k` of an object schema against the object's members.
pub open spec fn field_part(
    node: SchemaNode,
    k: int,
    ms: Seq<(String, JsonValue)>,
    path: Seq<char>,
) -> Seq<DiagnosticView>
    decreases node, 0nat,
{
    if 0 <= k < node.fields@.len() {
        field_diags(
            node.fields@[k],
            ms,
            path,
            value_diags(
                node.fields@[k].schema,
                member_value(ms, node.fields@[k].name@),
                pointer(path, node.fields@[k].name@),
            ),
        )
    } else {
        Seq::empty()
    }
}

/// The diagnostics of element `i` of an array against the array schema's item schema.
pub open spec fn item_part(node: SchemaNode, xs: Seq<JsonValue>, i: int, path: Seq<char>) -> Seq<
    DiagnosticView,
>
    decreases node, 0nat,
{
    match node.items {
        Some(item_schema) => if 0 <= i < xs.len() {
            value_diags(*item_schema, xs[i], index_pointer(path, i as nat))
        } else {
            Seq::empty()
        },
        None => Seq::empty(),
    }
}

/// The diagnostics of every field of an object schema, in field order.
pub open spec fn fields_diags(node: SchemaNode, ms: Seq<(String, JsonValue)>, path: Seq<char>) -> Seq<
    DiagnosticView,
>
    decreases node, 2nat,
{
    field_parts(node, ms, path).flatten()
}

/// Per-field diagnostics of an object schema.
pub open spec fn field_parts(node: SchemaNode, ms: Seq<(String, JsonValue)>, path: Seq<char>) -> Seq<
    Seq<DiagnosticView>,
>
    decreases node, 1nat,
{
    Seq::new(node.fields@.len(), |k: int| field_part(node, k, ms, path))
}

/// Per-element diagnostics of an array against the item schema.
pub open spec fn item_parts(node: SchemaNode, xs: Seq<JsonValue>, path: Seq<char>) -> Seq<
    Seq<DiagnosticView>,
>
    decreases node, 1nat,
{
    Seq::new(xs.len(), |i: int| item_part(node, xs, i, path))
}

/// Per-member diagnostics for members the schema does not name.
pub open spec fn additional_parts(fields: Seq<FieldSchema>, ms: Seq<(String, JsonValue)>, path: Seq<char>) -> Seq<
    Seq<DiagnosticView>,
> {
    Seq::new(ms.len(), |i: int| additional_diag(fields, ms[i].0@, path))
}

/// Per-element duplicate diagnostics.
pub open spec fn unique_parts(xs: Seq<JsonValue>, path: Seq<char>) -> Seq<Seq<DiagnosticView>> {
    Seq::new(xs.len(), |i: int| duplicate_diag(xs, i, path))
}

/// The diagnostics of every array element against the item schema, in order.
pub open spec fn items_diags(node: SchemaNode, xs: Seq<JsonValue>, path: Seq<char>) -> Seq<
    DiagnosticView,
>
    decreases node, 2nat,
{
    match node.items {
        Some(_) => item_parts(node, xs, path).flatten(),
        None => Seq::empty(),
    }
}

/// The diagnostics of members that the schema does not name, when they are forbidden.
pub open spec fn additional_diags(node: SchemaNode, ms: Seq<(String, JsonValue)>, path: Seq<char>) -> Seq<
    DiagnosticView,
> {
    if node.additional_properties == AdditionalProperties::Forbidden {
        additional_parts(node.fields@, ms, path).flatten()
    } else {
        Seq::empty()
    }
}

/// The duplicate-item diagnostics, when items must be unique.
pub open spec fn unique_diags(node: SchemaNode, xs: Seq<JsonValue>, path: Seq<char>) -> Seq<
    DiagnosticView,
> {
    if node.unique_items {
        unique_parts(xs, path).flatten()
    } else {
        Seq::empty()
    }
}

/// All diagnostics of validating `v` against `node`, in the order they are reported.
pub open spec fn value_diags(node: SchemaNode, v: JsonValue, path: Seq<char>) -> Seq<DiagnosticView>
    decreases node, 3nat,
{
    if model(v) is Null {
        if !node.nullable && node.kind != ValueKind::Any {
            seq![
                field_error(
                    COMMAND_INPUT_NULL_NOT_ALLOWED@,
                    "null is not allowed for this field"@,
                    path,
                ),
            ]
        } else {
            Seq::empty()
        }
    } else if node.enum_values is Some && !enum_contains(node.enum_values->Some_0@, v) {
        seq![field_error(COMMAND_INPUT_ENUM_MISMATCH@, enum_message(node.enum_values->Some_0@), path)]
    } else {
        match node.kind {
            ValueKind::Any => Seq::empty(),
            ValueKind::String => match v {
                JsonValue::String(s) => length_diags(
                    "string"@,
                    s@.len() as u32,
                    node.min_length,
                    "minLength"@,
                    node.max_length,
                    "maxLength"@,
                    path,
                ),
                _ => seq![mismatch("string"@, v, path)],
            },
            ValueKind::Integer => match v {
                JsonValue::Number(n) => if n.is_integer() {
                    numeric_diags(node, n.approx, n.text@, path)
                } else {
                    seq![mismatch("integer"@, v, path)]
                },
                _ => seq![mismatch("integer"@, v, path)],
            },
            ValueKind::Number => match v {
                JsonValue::Number(n) => numeric_diags(node, n.approx, n.text@, path),
                _ => seq![mismatch("number"@, v, path)],
            },
            ValueKind::Boolean => match v {
                JsonValue::Bool(_) => Seq::empty(),
                _ => seq![mismatch("boolean"@, v, path)],
            },
            ValueKind::Object => match v {
                JsonValue::Object(ms) => fields_diags(node, ms@, path) + additional_diags(node, ms@, path),
                _ => seq![mismatch("object"@, v, path)],
            },
            ValueKind::Array => match v {
                JsonValue::Array(xs) => length_diags(
                    "array"@,
                    xs@.len() as u32,
                    node.min_items,
                    "minItems"@,
                    node.max_items,
                    "maxItems"@,
                    path,
) + unique_diags(node, xs@, path) + items_diags(node, xs@, path),
                _ => seq![mismatch("array"@, v, path)],
            },
        }
    }
}


// ---------------------------------------------------------------------------
// Value validation: how they are computed
// ---------------------------------------------------------------------------

fn enum_mismatch_message(options: &Vec<JsonValue>) -> (m: String)
    ensures
        m@ == enum_message(options@),
{
    let ghost parts = option_texts(options@);
    let mut m = string_of("value does not match any allowed enum option: [");
    let ghost start = m@;
    let mut i: usize = 0;
    while i < options.len()
        invariant
            parts == option_texts(options@),
            i <= options@.len(),
            m@ == start + parts.take(i as int).flatten(),
        decreases options@.len() - i,
    {
        proof {
            lemma_flatten_step(parts, i as int);
        }
        let ghost before = m@;
        if i > 0 {
            push_str(&mut m, ", ");
        }
        push_json(&mut m, &options[i]);
        proof {
            reveal_strlit(", ");
        }
        assert(m@ =~= before + parts[i as int]);
        i = i + 1;
    }
    proof {
        lemma_flatten_all(parts);
    }
    push_str(&mut m, "]");
    m
}

fn error_at(code: &str, message: String, path: &str) -> (d: Diagnostic)
    ensures
        d.view() == field_error(code@, message@, path@),
{
    Diagnostic::error(code, message).at_field_path(string_of(path))
}

fn mismatch_diag(expected: &str, v: &JsonValue, path: &str) -> (d: Diagnostic)
    ensures
        d.view() == mismatch(expected@, *v, path@),
{
    let mut m = string_of("expected ");
    push_str(&mut m, expected);
    push_str(&mut m, ", got ");
    push_str(&mut m, kind_name(v));
    error_at(COMMAND_INPUT_TYPE_MISMATCH, m, path)
}

fn length_message(subject: &str, len: u32, relation: &str, bound_name: &str, bound: u32) -> (m: String)
    ensures
        m@ == subject@ + " length "@ + decimal(len as nat) + relation@ + bound_name@ + " "@
            + decimal(bound as nat),
{
    let mut m = string_of(subject);
    push_str(&mut m, " length ");
    push_decimal(&mut m, len as u64);
    push_str(&mut m, relation);
    push_str(&mut m, bound_name);
    push_str(&mut m, " ");
    push_decimal(&mut m, bound as u64);
    assert(m@ =~= subject@ + " length "@ + decimal(len as nat) + relation@ + bound_name@ + " "@
        + decimal(bound as nat));
    m
}

fn push_length_diags(
    bag: &mut DiagnosticBag,
    subject: &str,
    len: u32,
    min: Option<u32>,
    min_name: &str,
    max: Option<u32>,
    max_name: &str,
    path: &str,
)
    ensures
        final(bag).view() == old(bag).view() + length_diags(
            subject@,
            len,
            min,
            min_name@,
            max,
            max_name@,
            path@,
        ),
{
    let ghost start = bag.view();
    if let Some(m) = min {
        if len < m {
            let msg = length_message(subject, len, " is less than ", min_name, m);
            bag.push(error_at(COMMAND_INPUT_CONSTRAINT_FAILED, msg, path));
        }
    }
    let ghost mid = bag.view();
    if let Some(m) = max {
        if len > m {
            let msg = length_message(subject, len, " is greater than ", max_name, m);
            bag.push(error_at(COMMAND_INPUT_CONSTRAINT_FAILED, msg, path));
        }
    }
    assert(bag.view() =~= start + length_diags(
        subject@,
        len,
        min,
        min_name@,
        max,
        max_name@,
        path@,
    ));
}

fn bound_message(text: &str, relation: &str, bound: &str) -> (m: String)
    ensures
        m@ == "value "@ + text@ + relation@ + bound@,
{
    let mut m = string_of("value ");
    push_str(&mut m, text);
    push_str(&mut m, relation);
    push_str(&mut m, bound);
    m
}

fn push_index_message(i: usize, j: usize) -> (m: String)
    ensures
        m@ == "array items at indices "@ + decimal(i as nat) + " and "@ + decimal(j as nat)
            + " are duplicates"@,
{
    let mut m = string_of("array items at indices ");
    push_decimal(&mut m, i as u64);
    push_str(&mut m, " and ");
    push_decimal(&mut m, j as u64);
    push_str(&mut m, " are duplicates");
    m
}

fn quoted_message(before: &str, name: &str, after: &str) -> (m: String)
    ensures
        m@ == before@ + name@ + after@,
{
    let mut m = string_of(before);
    push_str(&mut m, name);
    push_str(&mut m, after);
    m
}

fn fields_name(fields: &Vec<FieldSchema>, key: &String) -> (r: bool)
    ensures
        r == names_field(fields@, key@),
{
    let mut k: usize = 0;
    while k < fields.len()
        invariant
            k <= fields@.len(),
            forall|j: int| 0 <= j < k ==> (#[trigger] fields@[j]).name@ != key@,
        decreases fields@.len() - k,
    {
        if fields[k].name == *key {
            assert(fields@[k as int].name@ == key@);
            return true;
        }
        k = k + 1;
    }
    false
}

fn first_later_equal(xs: &Vec<JsonValue>, i: usize) -> (r: Option<usize>)
    requires
        i < xs@.len(),
    ensures
        match r {
            Some(j) => first_duplicate(xs@, i as int) == Some(j as int),
            None => first_duplicate(xs@, i as int) is None,
        },
{
    let n = xs.len();
    let mut j: usize = i + 1;
    while j < n
        invariant
            n == xs@.len(),
            i < j <= xs@.len(),
            forall|k: int| i < k < j ==> model(#[trigger] xs@[k]) != model(xs@[i as int]),
        decreases xs@.len() - j,
    {
        if json_equal(&xs[i], &xs[j]) {
            proof {
                let w = choose|w: int|
                    i < w < xs@.len() && model(xs@[w]) == model(xs@[i as int]) && forall|k: int|
                        i < k < w ==> model(#[trigger] xs@[k]) != model(xs@[i as int]);
                assert(i < j < xs@.len() && model(xs@[j as int]) == model(xs@[i as int]));
                if w < j {
                    assert(model(xs@[w]) != model(xs@[i as int]));
                } else if w > j {
                    assert(model(xs@[j as int]) != model(xs@[i as int]));
                }
            }
            return Some(j);
        }
        j = j + 1;
    }
    None
}

impl SchemaNode {
    fn push_numeric_diags(&self, value: Dyadic, text: &str, path: &str, bag: &mut DiagnosticBag)
        ensures
            final(bag).view() == old(bag).view() + numeric_diags(*self, value, text@, path@),
    {
        let ghost start = bag.view();
        if let Some(b) = &self.minimum {
            if dyadic_less(value, b.value) {
                let msg = bound_message(text, " is less than minimum ", b.text.as_str());
                bag.push(error_at(COMMAND_INPUT_CONSTRAINT_FAILED, msg, path));
            }
        }
        if let Some(b) = &self.maximum {
            if dyadic_less(b.value, value) {
                let msg = bound_message(text, " is greater than maximum ", b.text.as_str());
                bag.push(error_at(COMMAND_INPUT_CONSTRAINT_FAILED, msg, path));
            }
        }
        assert(bag.view() =~= start + numeric_diags(*self, value, text@, path@));
    }

    fn push_unique_diags(&self, xs: &Vec<JsonValue>, path: &str, bag: &mut DiagnosticBag)
        requires
            self.unique_items,
        ensures
            final(bag).view() == old(bag).view() + unique_diags(*self, xs@, path@),
    {
        let ghost start = bag.view();
        let ghost parts = unique_parts(xs@, path@);
        let mut i: usize = 0;
        while i < xs.len()
            invariant
                i <= xs@.len(),
                parts == unique_parts(xs@, path@),
                bag.view() == start + parts.take(i as int).flatten(),
            decreases xs@.len() - i,
        {
            proof {
                lemma_flatten_step(parts, i as int);
            }
            let ghost before = bag.view();
            match first_later_equal(xs, i) {
                Some(j) => {
                    let msg = push_index_message(i, j);
                    let at = append_index(path, i);
                    bag.push(error_at(COMMAND_INPUT_CONSTRAINT_FAILED, msg, at.as_str()));
                },
                None => {},
            }
            assert(bag.view() =~= start + parts.take(i as int + 1).flatten());
            i = i + 1;
        }
        proof {
            lemma_flatten_all(parts);
        }
    }

    /// Appends the diagnostics of validating `value` at `path` (see `value_diags`).
    #[verifier::rlimit(60)]
    pub fn validate_inner(&self, value: &JsonValue, path: &str, bag: &mut DiagnosticBag)
        ensures
            final(bag).view() == old(bag).view() + value_diags(*self, *value, path@),
        decreases self, 5nat,
    {
        let ghost start = bag.view();
        if is_null(value) {
            if !self.nullable && self.kind != ValueKind::Any {
                bag.push(
                    error_at(
                        COMMAND_INPUT_NULL_NOT_ALLOWED,
                        string_of("null is not allowed for this field"),
                        path,
                    ),
                );
            }
            assert(bag.view() =~= start + value_diags(*self, *value, path@));
            return ;
        }
        if let Some(options) = &self.enum_values {
            let mut found = false;
            let mut i: usize = 0;
            while i < options.len()
                invariant
                    i <= options@.len(),
                    found == exists|j: int| 0 <= j < i && model(#[trigger] options@[j]) == model(*value),
                decreases options@.len() - i,
            {
                if json_equal(&options[i], value) {
                    found = true;
                }
                i = i + 1;
            }
            if !found {
                bag.push(
                    error_at(
                        COMMAND_INPUT_ENUM_MISMATCH,
                        enum_mismatch_message(options),
                        path,
                    ),
                );
                assert(bag.view() =~= start + value_diags(*self, *value, path@));
                return ;
            }
        }
        match self.kind {
            ValueKind::Any => {
                assert(bag.view() =~= start + value_diags(*self, *value, path@));
            },
            ValueKind::String => match value {
                JsonValue::String(s) => {
                    let len = chars_of(s.as_str()).len() as u32;
                    push_length_diags(
                        bag,
                        "string",
                        len,
                        self.min_length,
                        "minLength",
                        self.max_length,
                        "maxLength",
                        path,
                    );
                    assert(bag.view() =~= start + value_diags(*self, *value, path@));
                },
                _ => bag.push(mismatch_diag("string", value, path)),
            },
            ValueKind::Integer => match value {
                JsonValue::Number(n) => {
                    if matches!(n.repr, crate::json::NumberRepr::Float(_)) {
                        bag.push(mismatch_diag("integer", value, path));
                    } else {
                        self.push_numeric_diags(n.approx, n.text.as_str(), path, bag);
                    }
                },
                _ => bag.push(mismatch_diag("integer", value, path)),
            },
            ValueKind::Number => match value {
                JsonValue::Number(n) => {
                    self.push_numeric_diags(n.approx, n.text.as_str(), path, bag);
                },
                _ => bag.push(mismatch_diag("number", value, path)),
            },
            ValueKind::Boolean => match value {
                JsonValue::Bool(_) => {},
                _ => bag.push(mismatch_diag("boolean", value, path)),
            },
            ValueKind::Object => match value {
                JsonValue::Object(ms) => {
                    self.validate_members(ms, path, bag);
                    assert(bag.view() =~= start + value_diags(*self, *value, path@));
                },
                _ => bag.push(mismatch_diag("object", value, path)),
            },
            ValueKind::Array => match value {
                JsonValue::Array(xs) => {
                    self.validate_items(xs, path, bag);
                    assert(bag.view() =~= start + value_diags(*self, *value, path@));
                },
                _ => bag.push(mismatch_diag("array", value, path)),
            },
        }
        assert(bag.view() =~= start + value_diags(*self, *value, path@));
    }

    fn validate_field(&self, k: usize, ms: &Vec<(String, JsonValue)>, path: &str, bag: &mut DiagnosticBag)
        requires
            k < self.fields@.len(),
        ensures
            final(bag).view() == old(bag).view() + field_part(*self, k as int, ms@, path@),
        decreases self, 1nat,
    {
        let ghost start = bag.view();
        let field = &self.fields[k];
        let fp = append_pointer(path, field.name.as_str());
        match find_member(ms, &field.name) {
            Some(idx) => {
                let fv = &ms[idx].1;
                if !is_null(fv) || field.schema.nullable {
                    proof {
                        vstd::std_specs::vec::axiom_vec_index_decreases(self.fields, k as int);
                        assert(decreases_to!(*self => self.fields));
                        assert(decreases_to!(*self => self.fields@[k as int].schema));
                    }
                    field.schema.validate_inner(fv, fp.as_str(), bag);
                } else if field.required {
                    let msg = quoted_message("field `", field.name.as_str(), "` does not allow null");
                    bag.push(error_at(COMMAND_INPUT_NULL_NOT_ALLOWED, msg, fp.as_str()));
                }
            },
            None => {
                if field.required && field.schema.default.is_none() {
                    let msg = quoted_message("required field `", field.name.as_str(), "` is missing");
                    bag.push(error_at(COMMAND_INPUT_REQUIRED, msg, fp.as_str()));
                }
            },
        }
        assert(bag.view() =~= start + field_part(*self, k as int, ms@, path@));
    }

    fn validate_members(&self, ms: &Vec<(String, JsonValue)>, path: &str, bag: &mut DiagnosticBag)
        ensures
            final(bag).view() == old(bag).view() + fields_diags(*self, ms@, path@) + additional_diags(
                *self,
                ms@,
                path@,
            ),
        decreases self, 4nat,
    {
        let ghost start = bag.view();
        self.validate_fields(ms, path, bag);
        let ghost mid = bag.view();
        self.check_additional(ms, path, bag);
        assert(bag.view() =~= start + fields_diags(*self, ms@, path@) + additional_diags(
            *self,
            ms@,
            path@,
        ));
    }

    #[verifier::rlimit(80)]
    fn validate_fields(&self, ms: &Vec<(String, JsonValue)>, path: &str, bag: &mut DiagnosticBag)
        ensures
            final(bag).view() == old(bag).view() + fields_diags(*self, ms@, path@),
        decreases self, 3nat,
    {
        let ghost start = bag.view();
        let ghost parts = field_parts(*self, ms@, path@);
        let mut k: usize = 0;
        while k < self.fields.len()
            invariant
                k <= self.fields@.len(),
                parts == field_parts(*self, ms@, path@),
                bag.view() == start + parts.take(k as int).flatten(),
            decreases self.fields@.len() - k,
        {
            proof {
                lemma_flatten_step(parts, k as int);
            }
            self.validate_field(k, ms, path, bag);
            k = k + 1;
        }
        proof {
            lemma_flatten_all(parts);
        }
    }

    fn check_additional(&self, ms: &Vec<(String, JsonValue)>, path: &str, bag: &mut DiagnosticBag)
        ensures
            final(bag).view() == old(bag).view() + additional_diags(*self, ms@, path@),
    {
        let ghost mid = bag.view();
        if self.additional_properties == AdditionalProperties::Forbidden {
            let ghost extra = additional_parts(self.fields@, ms@, path@);
            let mut i: usize = 0;
            while i < ms.len()
                invariant
                    i <= ms@.len(),
                    extra == additional_parts(self.fields@, ms@, path@),
                    bag.view() == mid + extra.take(i as int).flatten(),
                decreases ms@.len() - i,
            {
                proof {
                    lemma_flatten_step(extra, i as int);
                }
                let key = &ms[i].0;
                if !fields_name(&self.fields, key) {
                    let msg = quoted_message("additional property `", key.as_str(), "` is not allowed");
                    let at = append_pointer(path, key.as_str());
                    bag.push(error_at(COMMAND_INPUT_ADDITIONAL_PROPERTY, msg, at.as_str()));
                }
                assert(bag.view() =~= mid + extra.take(i as int + 1).flatten());
                i = i + 1;
            }
            proof {
                lemma_flatten_all(extra);
            }
        } else {
            assert(bag.view() =~= mid + additional_diags(*self, ms@, path@));
        }
    }

    fn validate_items(&self, xs: &Vec<JsonValue>, path: &str, bag: &mut DiagnosticBag)
        requires
            self.kind == ValueKind::Array,
        ensures
            final(bag).view() == old(bag).view() + length_diags(
                "array"@,
                xs@.len() as u32,
                self.min_items,
                "minItems"@,
                self.max_items,
                "maxItems"@,
                path@,
            ) + unique_diags(*self, xs@, path@) + items_diags(*self, xs@, path@),
        decreases self, 4nat,
    {
        let ghost start = bag.view();
        push_length_diags(
            bag,
            "array",
            xs.len() as u32,
            self.min_items,
            "minItems",
            self.max_items,
            "maxItems",
            path,
        );
        let ghost after_len = bag.view();
        if self.unique_items {
            self.push_unique_diags(xs, path, bag);
        }
        let ghost after_unique = bag.view();
        assert(after_unique == after_len + unique_diags(*self, xs@, path@));
        self.validate_all_items(xs, path, bag);
        assert(bag.view() =~= start + length_diags(
            "array"@,
            xs@.len() as u32,
            self.min_items,
            "minItems"@,
            self.max_items,
            "maxItems"@,
            path@,
        ) + unique_diags(*self, xs@, path@) + items_diags(*self, xs@, path@));
    }

    fn validate_all_items(&self, xs: &Vec<JsonValue>, path: &str, bag: &mut DiagnosticBag)
        ensures
            final(bag).view() == old(bag).view() + items_diags(*self, xs@, path@),
        decreases self, 3nat,
    {
        let ghost start = bag.view();
        if self.items.is_some() {
            let ghost parts = item_parts(*self, xs@, path@);
            let mut i: usize = 0;
            while i < xs.len()
                invariant
                    i <= xs@.len(),
                    self.items is Some,
                    parts == item_parts(*self, xs@, path@),
                    bag.view() == start + parts.take(i as int).flatten(),
                decreases xs@.len() - i,
            {
                proof {
                    lemma_flatten_step(parts, i as int);
                }
                self.validate_item(xs, i, path, bag);
                i = i + 1;
            }
            proof {
                lemma_flatten_all(parts);
            }
        } else {
            assert(bag.view() =~= start + items_diags(*self, xs@, path@));
        }
    }

    fn validate_item(&self, xs: &Vec<JsonValue>, i: usize, path: &str, bag: &mut DiagnosticBag)
        requires
            self.items is Some,
            i < xs@.len(),
        ensures
            final(bag).view() == old(bag).view() + item_part(*self, xs@, i as int, path@),
        decreases self, 1nat,
    {
        match &self.items {
            Some(item_schema) => {
                proof {
                    assert(decreases_to!(*self => self.items));
                    assert(decreases_to!(*self => self.items->Some_0));
                }
                let at = append_index(path, i);
                item_schema.validate_inner(&xs[i], at.as_str(), bag);
            },
            None => {},
        }
    }

    /// All diagnostics of validating `value` against this schema, at the root path.
    pub fn validate_value(&self, value: &JsonValue) -> (bag: DiagnosticBag)
        ensures
            bag.view() == value_diags(*self, *value, Seq::empty()),
    {
        let mut bag = DiagnosticBag::new();
        self.validate_inner(value, "", &mut bag);
        proof {
            reveal_strlit("");
            assert(""@ =~= Seq::<char>::empty());
        }
        bag
    }
}


// ---------------------------------------------------------------------------
// Schema definition validation
// ---------------------------------------------------------------------------

/// Why a schema definition is unsound: the keyword at fault, an explanation, and where.
pub struct DefinitionFault {
    pub keyword: Seq<char>,
    pub message: Seq<char>,
    pub path: Seq<char>,
}

/// A refused schema definition.
#[derive(Debug, Clone, PartialEq, Eq)]
pub struct SchemaDefinitionError {
    pub code: String,
    pub type_id: Option<crate::ids::EngineTypeId>,
    pub field_path: String,
    pub keyword: String,
    pub message: String,
}

/// The first of two possible faults.
pub open spec fn either(a: Option<DefinitionFault>, b: Option<DefinitionFault>) -> Option<DefinitionFault> {
    if a is Some {
        a
    } else {
        b
    }
}

/// A fault with `keyword` and `message` at `path`.
pub open spec fn fault(keyword: Seq<char>, message: Seq<char>, path: Seq<char>) -> Option<DefinitionFault> {
    Some(DefinitionFault { keyword, message, path })
}

/// The message for a constraint that does not belong to the node's kind.
pub open spec fn misplaced(family: Seq<char>, keyword: Seq<char>) -> Seq<char> {
    family + " constraint `"@ + keyword + "` is not valid for this value kind"@
}

/// A numeric constraint on a node that is not numeric.
pub open spec fn numeric_fault(node: SchemaNode, path: Seq<char>) -> Option<DefinitionFault> {
    if node.minimum is Some {
        fault("minimum"@, misplaced("numeric"@, "minimum"@), path)
    } else if node.maximum is Some {
        fault("maximum"@, misplaced("numeric"@, "maximum"@), path)
    } else {
        None
    }
}

/// A string constraint on a node that is not a string.
pub open spec fn string_fault(node: SchemaNode, path: Seq<char>) -> Option<DefinitionFault> {
    if node.min_length is Some {
        fault("minLength"@, misplaced("string"@, "minLength"@), path)
    } else if node.max_length is Some {
        fault("maxLength"@, misplaced("string"@, "maxLength"@), path)
    } else {
        None
    }
}

/// An array constraint on a node that is not an array.
pub open spec fn array_fault(node: SchemaNode, path: Seq<char>) -> Option<DefinitionFault> {
    if node.min_items is Some {
        fault("minItems"@, misplaced("array"@, "minItems"@), path)
    } else if node.max_items is Some {
        fault("maxItems"@, misplaced("array"@, "maxItems"@), path)
    } else if node.unique_items {
        fault("uniqueItems"@, misplaced("array"@, "uniqueItems"@), path)
    } else if node.items is Some {
        fault("items"@, misplaced("array"@, "items"@), path)
    } else {
        None
    }
}

/// An object constraint on a node that is not an object.
pub open spec fn object_fault(node: SchemaNode, path: Seq<char>) -> Option<DefinitionFault> {
    if node.fields@.len() != 0 {
        fault("fields"@, "object fields are not valid for this value kind"@, path)
    } else if node.additional_properties == AdditionalProperties::Forbidden {
        fault(
            "additionalProperties"@,
            misplaced("object"@, "additionalProperties"@),
            path,
        )
    } else {
        None
    }
}

/// A lower bound above the upper bound of a count.
pub open spec fn count_bounds_fault(
    min: Option<u32>,
    max: Option<u32>,
    min_name: Seq<char>,
    max_name: Seq<char>,
    path: Seq<char>,
) -> Option<DefinitionFault> {
    match (min, max) {
        (Some(lo), Some(hi)) => if lo > hi {
            fault(
                min_name + "/"@ + max_name,
                min_name + " ("@ + decimal(lo as nat) + ") is greater than "@ + max_name + " ("@
                    + decimal(hi as nat) + ")"@,
                path,
            )
        } else {
            None
        },
        _ => None,
    }
}

/// A minimum above the maximum.
pub open spec fn numeric_bounds_fault(node: SchemaNode, path: Seq<char>) -> Option<DefinitionFault> {
    match (node.minimum, node.maximum) {
        (Some(lo), Some(hi)) => if dyadic_lt(hi.value, lo.value) {
            fault(
                "minimum/maximum"@,
                "minimum ("@ + lo.text@ + ") is greater than maximum ("@ + hi.text@ + ")"@,
                path,
            )
        } else {
            None
        },
        _ => None,
    }
}

/// Field `k` repeats the name of an earlier field.
pub open spec fn repeats_name(fields: Seq<FieldSchema>, k: int) -> bool {
    exists|j: int| 0 <= j < k && (#[trigger] fields[j]).name@ == fields[k].name@
}

/// The first field that repeats an earlier name.
pub open spec fn first_repeat(fields: Seq<FieldSchema>) -> int {
    choose|k: int|
        0 <= k < fields.len() && repeats_name(fields, k) && forall|m: int|
            0 <= m < k ==> !repeats_name(fields, m)
}

/// Two fields with the same name.
pub open spec fn duplicate_fault(node: SchemaNode, path: Seq<char>) -> Option<DefinitionFault> {
    let fields = node.fields@;
    if exists|k: int| 0 <= k < fields.len() && repeats_name(fields, k) {
        let k = first_repeat(fields);
        fault("fields"@, "duplicate field name: `"@ + fields[k].name@ + "`"@, path)
    } else {
        None
    }
}

/// The first fault in a list.
pub open spec fn first_fault(faults: Seq<Option<DefinitionFault>>) -> Option<DefinitionFault>
    decreases faults.len(),
{
    if faults.len() == 0 {
        None
    } else if faults[0] is Some {
        faults[0]
    } else {
        first_fault(faults.drop_first())
    }
}

/// The faults of the fields' own schemas, in field order.
pub open spec fn field_faults(node: SchemaNode, path: Seq<char>) -> Seq<Option<DefinitionFault>>
    decreases node, 0nat,
{
    Seq::new(
        node.fields@.len(),
        |k: int|
            if 0 <= k < node.fields@.len() {
                definition_fault(node.fields@[k].schema, pointer(path, node.fields@[k].name@))
            } else {
                None
            },
    )
}

/// The fault of the item schema, if any.
pub open spec fn items_fault(node: SchemaNode, path: Seq<char>) -> Option<DefinitionFault>
    decreases node, 0nat,
{
    match node.items {
        Some(item_schema) => definition_fault(*item_schema, pointer(path, "items"@)),
        None => None,
    }
}

/// The kind-specific faults of a node.
pub open spec fn kind_fault(node: SchemaNode, path: Seq<char>) -> Option<DefinitionFault>
    decreases node, 1nat,
{
    match node.kind {
        ValueKind::Any => either(
            numeric_fault(node, path),
            either(string_fault(node, path), either(array_fault(node, path), object_fault(node, path))),
        ),
        ValueKind::String => either(
            numeric_fault(node, path),
            either(
                array_fault(node, path),
                either(
                    object_fault(node, path),
                    count_bounds_fault(node.min_length, node.max_length, "minLength"@, "maxLength"@, path),
                ),
            ),
        ),
        ValueKind::Integer | ValueKind::Number => either(
            string_fault(node, path),
            either(
                array_fault(node, path),
                either(object_fault(node, path), numeric_bounds_fault(node, path)),
            ),
        ),
        ValueKind::Boolean => either(
            numeric_fault(node, path),
            either(string_fault(node, path), either(array_fault(node, path), object_fault(node, path))),
        ),
        ValueKind::Object => either(
            numeric_fault(node, path),
            either(
                string_fault(node, path),
                either(
                    array_fault(node, path),
                    either(duplicate_fault(node, path), first_fault(field_faults(node, path))),
                ),
            ),
        ),
        ValueKind::Array => either(
            numeric_fault(node, path),
            either(
                string_fault(node, path),
                either(
                    object_fault(node, path),
                    either(
                        count_bounds_fault(node.min_items, node.max_items, "minItems"@, "maxItems"@, path),
                        items_fault(node, path),
                    ),
                ),
            ),
        ),
    }
}

/// An empty enum, or a default value that its own schema rejects.
pub open spec fn value_fault(node: SchemaNode, path: Seq<char>) -> Option<DefinitionFault> {
    if node.enum_values matches Some(options) && options@.len() == 0 {
        fault("enum"@, "enum must contain at least one value"@, path)
    } else {
        match node.default {
            Some(d) => {
                let diags = value_diags(node, d, path);
                if diags.len() > 0 {
                    fault(
                        "default"@,
                        "default value does not conform to its own schema: "@ + diags[0].message,
                        path,
                    )
                } else {
                    None
                }
            },
            None => None,
        }
    }
}

/// The first unsoundness of the schema at `path`, in the order the checks run.
pub open spec fn definition_fault(node: SchemaNode, path: Seq<char>) -> Option<DefinitionFault>
    decreases node, 2nat,
{
    either(kind_fault(node, path), value_fault(node, path))
}


/// The error reports exactly the fault (or there is neither).
pub open spec fn reports(r: Option<SchemaDefinitionError>, f: Option<DefinitionFault>) -> bool {
    match (r, f) {
        (None, None) => true,
        (Some(e), Some(g)) => {
            &&& e.code@ == SCHEMA_DEFINITION_INVALID@
            &&& e.type_id is None
            &&& e.keyword@ == g.keyword
            &&& e.message@ == g.message
            &&& e.field_path@ == g.path
        },
        _ => false,
    }
}

fn definition_error(keyword: &str, message: String, path: &str) -> (e: Option<SchemaDefinitionError>)
    ensures
        reports(e, fault(keyword@, message@, path@)),
{
    Some(
        SchemaDefinitionError {
            code: string_of(SCHEMA_DEFINITION_INVALID),
            type_id: None,
            field_path: string_of(path),
            keyword: string_of(keyword),
            message,
        },
    )
}

fn misplaced_message(family: &str, keyword: &str) -> (m: String)
    ensures
        m@ == misplaced(family@, keyword@),
{
    let mut m = string_of(family);
    push_str(&mut m, " constraint `");
    push_str(&mut m, keyword);
    push_str(&mut m, "` is not valid for this value kind");
    m
}

fn count_bounds_check(min: Option<u32>, max: Option<u32>, min_name: &str, max_name: &str, path: &str) -> (r:
    Option<SchemaDefinitionError>)
    ensures
        reports(r, count_bounds_fault(min, max, min_name@, max_name@, path@)),
{
    match (min, max) {
        (Some(lo), Some(hi)) => {
            if lo > hi {
                let mut keyword = string_of(min_name);
                push_str(&mut keyword, "/");
                push_str(&mut keyword, max_name);
                let mut m = string_of(min_name);
                push_str(&mut m, " (");
                push_decimal(&mut m, lo as u64);
                push_str(&mut m, ") is greater than ");
                push_str(&mut m, max_name);
                push_str(&mut m, " (");
                push_decimal(&mut m, hi as u64);
                push_str(&mut m, ")");
                definition_error(keyword.as_str(), m, path)
            } else {
                None
            }
        },
        _ => None,
    }
}

impl SchemaNode {
    fn numeric_check(&self, path: &str) -> (r: Option<SchemaDefinitionError>)
        ensures
            reports(r, numeric_fault(*self, path@)),
    {
        if self.minimum.is_some() {
            definition_error("minimum", misplaced_message("numeric", "minimum"), path)
        } else if self.maximum.is_some() {
            definition_error("maximum", misplaced_message("numeric", "maximum"), path)
        } else {
            None
        }
    }

    fn string_check(&self, path: &str) -> (r: Option<SchemaDefinitionError>)
        ensures
            reports(r, string_fault(*self, path@)),
    {
        if self.min_length.is_some() {
            definition_error("minLength", misplaced_message("string", "minLength"), path)
        } else if self.max_length.is_some() {
            definition_error("maxLength", misplaced_message("string", "maxLength"), path)
        } else {
            None
        }
    }

    fn array_check(&self, path: &str) -> (r: Option<SchemaDefinitionError>)
        ensures
            reports(r, array_fault(*self, path@)),
    {
        if self.min_items.is_some() {
            definition_error("minItems", misplaced_message("array", "minItems"), path)
        } else if self.max_items.is_some() {
            definition_error("maxItems", misplaced_message("array", "maxItems"), path)
        } else if self.unique_items {
            definition_error("uniqueItems", misplaced_message("array", "uniqueItems"), path)
        } else if self.items.is_some() {
            definition_error("items", misplaced_message("array", "items"), path)
        } else {
            None
        }
    }

    fn object_check(&self, path: &str) -> (r: Option<SchemaDefinitionError>)
        ensures
            reports(r, object_fault(*self, path@)),
    {
        if self.fields.len() != 0 {
            definition_error(
                "fields",
                string_of("object fields are not valid for this value kind"),
                path,
            )
        } else if self.additional_properties == AdditionalProperties::Forbidden {
            definition_error(
                "additionalProperties",
                misplaced_message("object", "additionalProperties"),
                path,
            )
        } else {
            None
        }
    }

    fn numeric_bounds_check(&self, path: &str) -> (r: Option<SchemaDefinitionError>)
        ensures
            reports(r, numeric_bounds_fault(*self, path@)),
    {
        match (&self.minimum, &self.maximum) {
            (Some(lo), Some(hi)) => {
                if dyadic_less(hi.value, lo.value) {
                    let mut m = string_of("minimum (");
                    push_str(&mut m, lo.text.as_str());
                    push_str(&mut m, ") is greater than maximum (");
                    push_str(&mut m, hi.text.as_str());
                    push_str(&mut m, ")");
                    definition_error("minimum/maximum", m, path)
                } else {
                    None
                }
            },
            _ => None,
        }
    }

    fn duplicate_check(&self, path: &str) -> (r: Option<SchemaDefinitionError>)
        ensures
            reports(r, duplicate_fault(*self, path@)),
    {
        let fields = &self.fields;
        let mut k: usize = 0;
        while k < fields.len()
            invariant
                fields@ == self.fields@,
                k <= fields@.len(),
                forall|m: int| 0 <= m < k ==> !repeats_name(fields@, m),
            decreases fields@.len() - k,
        {
            let mut j: usize = 0;
            while j < k
                invariant
                    fields@ == self.fields@,
                    k < fields@.len(),
                    j <= k,
                    forall|m: int| 0 <= m < k ==> !repeats_name(fields@, m),
                    forall|i: int| 0 <= i < j ==> (#[trigger] fields@[i]).name@ != fields@[k as int].name@,
                decreases k - j,
            {
                if fields[j].name == fields[k].name {
                    proof {
                        assert(repeats_name(fields@, k as int));
                        assert(0 <= k < fields@.len() && repeats_name(fields@, k as int));
                        assert(exists|k2: int| 0 <= k2 < fields@.len() && repeats_name(fields@, k2));
                        let w = first_repeat(fields@);
                        if w < k {
                            assert(!repeats_name(fields@, w));
                        } else if w > k {
                            assert(!repeats_name(fields@, k as int));
                        }
                        assert(w == k);
                    }
                    let m = quoted_message("duplicate field name: `", fields[k].name.as_str(), "`");
                    return definition_error("fields", m, path);
                }
                j = j + 1;
            }
            k = k + 1;
        }
        None
    }

    fn enum_check(&self, path: &str) -> (r: Option<SchemaDefinitionError>)
        ensures
            reports(
                r,
                if self.enum_values matches Some(options) && options@.len() == 0 {
                    fault("enum"@, "enum must contain at least one value"@, path@)
                } else {
                    None
                },
            ),
    {
        match &self.enum_values {
            Some(options) => {
                if options.len() == 0 {
                    definition_error("enum", string_of("enum must contain at least one value"), path)
                } else {
                    None
                }
            },
            None => None,
        }
    }

    fn default_check(&self, path: &str) -> (r: Option<SchemaDefinitionError>)
        ensures
            reports(
                r,
                match self.default {
                    Some(d) => {
                        let diags = value_diags(*self, d, path@);
                        if diags.len() > 0 {
                            fault(
                                "default"@,
                                "default value does not conform to its own schema: "@
                                    + diags[0].message,
                                path@,
                            )
                        } else {
                            None
                        }
                    },
                    None => None,
                },
            ),
    {
        match &self.default {
            Some(d) => {
                let mut bag = DiagnosticBag::new();
                self.validate_inner(d, path, &mut bag);
                if bag.diagnostics.len() > 0 {
                    assert(bag.view()[0] == bag.diagnostics@[0].view());
                    let m = quoted_message(
                        "default value does not conform to its own schema: ",
                        bag.diagnostics[0].message.as_str(),
                        "",
                    );
                    proof {
                        reveal_strlit("");
                        assert(""@ =~= Seq::<char>::empty());
                        assert(m@ =~= "default value does not conform to its own schema: "@
                            + bag.diagnostics@[0].message@);
                    }
                    definition_error("default", m, path)
                } else {
                    None
                }
            },
            None => None,
        }
    }

    fn kind_check(&self, path: &str) -> (r: Option<SchemaDefinitionError>)
        ensures
            reports(r, kind_fault(*self, path@)),
        decreases self, 1nat,
    {
        match self.kind {
            ValueKind::Any | ValueKind::Boolean => {
                let r = self.numeric_check(path);
                if r.is_some() {
                    return r;
                }
                let r = self.string_check(path);
                if r.is_some() {
                    return r;
                }
                let r = self.array_check(path);
                if r.is_some() {
                    return r;
                }
                self.object_check(path)
            },
            ValueKind::String => {
                let r = self.numeric_check(path);
                if r.is_some() {
                    return r;
                }
                let r = self.array_check(path);
                if r.is_some() {
                    return r;
                }
                let r = self.object_check(path);
                if r.is_some() {
                    return r;
                }
                count_bounds_check(self.min_length, self.max_length, "minLength", "maxLength", path)
            },
            ValueKind::Integer | ValueKind::Number => {
                let r = self.string_check(path);
                if r.is_some() {
                    return r;
                }
                let r = self.array_check(path);
                if r.is_some() {
                    return r;
                }
                let r = self.object_check(path);
                if r.is_some() {
                    return r;
                }
                self.numeric_bounds_check(path)
            },
            ValueKind::Object => {
                let r = self.numeric_check(path);
                if r.is_some() {
                    return r;
                }
                let r = self.string_check(path);
                if r.is_some() {
                    return r;
                }
                let r = self.array_check(path);
                if r.is_some() {
                    return r;
                }
                let r = self.duplicate_check(path);
                if r.is_some() {
                    return r;
                }
                self.fields_check(path)
            },
            ValueKind::Array => {
                let r = self.numeric_check(path);
                if r.is_some() {
                    return r;
                }
                let r = self.string_check(path);
                if r.is_some() {
                    return r;
                }
                let r = self.object_check(path);
                if r.is_some() {
                    return r;
                }
                let r = count_bounds_check(self.min_items, self.max_items, "minItems", "maxItems", path);
                if r.is_some() {
                    return r;
                }
                match &self.items {
                    Some(item_schema) => {
                        proof {
                            assert(decreases_to!(*self => self.items));
                            assert(decreases_to!(*self => self.items->Some_0));
                        }
                        let at = append_pointer(path, "items");
                        item_schema.definition_check(at.as_str())
                    },
                    None => None,
                }
            },
        }
    }

    fn fields_check(&self, path: &str) -> (r: Option<SchemaDefinitionError>)
        ensures
            reports(r, first_fault(field_faults(*self, path@))),
        decreases self, 0nat,
    {
        let ghost faults = field_faults(*self, path@);
        assert(faults.skip(0) =~= faults);
        let mut k: usize = 0;
        while k < self.fields.len()
            invariant
                k <= self.fields@.len(),
                faults == field_faults(*self, path@),
                first_fault(faults) == first_fault(faults.skip(k as int)),
            decreases self.fields@.len() - k,
        {
            proof {
                vstd::std_specs::vec::axiom_vec_index_decreases(self.fields, k as int);
                assert(decreases_to!(*self => self.fields));
                assert(decreases_to!(*self => self.fields@[k as int].schema));
                assert(faults.skip(k as int).drop_first() =~= faults.skip(k as int + 1));
            }
            let field = &self.fields[k];
            let at = append_pointer(path, field.name.as_str());
            let r = field.schema.definition_check(at.as_str());
            if r.is_some() {
                return r;
            }
            k = k + 1;
        }
        None
    }

    fn definition_check(&self, path: &str) -> (r: Option<SchemaDefinitionError>)
        ensures
            reports(r, definition_fault(*self, path@)),
        decreases self, 2nat,
    {
        let r = self.kind_check(path);
        if r.is_some() {
            return r;
        }
        let r = self.enum_check(path);
        if r.is_some() {
            return r;
        }
        self.default_check(path)
    }

    /// Checks that the schema is sound: constraints fit their value kinds, bounds are
    /// ordered, field names are distinct, enums are not empty and defaults conform.
    pub fn validate_definition(&self) -> (r: Result<(), SchemaDefinitionError>)
        ensures
            r is Ok <==> definition_fault(*self, Seq::empty()) is None,
            r matches Err(e) ==> reports(Some(e), definition_fault(*self, Seq::empty())),
    {
        proof {
            reveal_strlit("");
            assert(""@ =~= Seq::<char>::empty());
        }
        match self.definition_check("") {
            Some(e) => Err(e),
            None => Ok(()),
        }
    }
}

} // verus!
