use super::{AdditionalProperties, FieldSchema, NumericBound, SchemaNode, ValueKind};
use crate::json::JsonValue;
use crate::text::string_of;
use vstd::prelude::*;

verus! {

/// A node of kind `kind` with no description, constraints, items or fields.
pub open spec fn bare(node: SchemaNode, kind: ValueKind) -> bool {
    &&& plain(node, kind)
    &&& node.items is None
    &&& node.fields@.len() == 0
}

/// `f` is the field `name`, required or not, whose schema is a bare `kind`, or (when
/// `item` is given) a plain `kind` whose items are a bare `item`.
pub open spec fn field_is(f: FieldSchema, name: Seq<char>, required: bool, kind: ValueKind, item: Option<ValueKind>) -> bool {
    &&& f.name@ == name
    &&& f.required == required
    &&& match item {
        None => bare(f.schema, kind),
        Some(k) => plain(f.schema, kind) && f.schema.fields@.len() == 0 && (f.schema.items matches Some(b) && bare(*b, k)),
    }
}

/// `node` is a plain object schema with exactly the fields `fields`, in order.
pub open spec fn object_of_fields(node: SchemaNode, fields: Seq<(Seq<char>, bool, ValueKind, Option<ValueKind>)>) -> bool {
    &&& plain(node, ValueKind::Object)
    &&& node.items is None
    &&& node.fields@.len() == fields.len()
    &&& forall|i: int| 0 <= i < fields.len() ==> field_is(#[trigger] node.fields@[i], fields[i].0, fields[i].1, fields[i].2, fields[i].3)
}

/// A node of kind `kind` with no description or constraints (items and fields aside).
pub open spec fn plain(node: SchemaNode, kind: ValueKind) -> bool {
    &&& node.kind == kind
    &&& node.description@.len() == 0
    &&& !node.nullable
    &&& node.default is None
    &&& node.enum_values is None
    &&& node.minimum is None
    &&& node.maximum is None
    &&& node.min_length is None
    &&& node.max_length is None
    &&& node.min_items is None
    &&& node.max_items is None
    &&& !node.unique_items
    &&& node.additional_properties == AdditionalProperties::Allowed
}

impl SchemaNode {
    /// A node of kind `kind` with nothing else set.
    pub fn new(kind: ValueKind) -> (r: Self)
        ensures
            bare(r, kind),
    {
        SchemaNode {
            kind,
            description: String::new(),
            nullable: false,
            default: None,
            enum_values: None,
            minimum: None,
            maximum: None,
            min_length: None,
            max_length: None,
            min_items: None,
            max_items: None,
            unique_items: false,
            items: None,
            fields: Vec::new(),
            additional_properties: AdditionalProperties::Allowed,
        }
    }

    /// Any value.
    pub fn any() -> (r: Self)
        ensures
            bare(r, ValueKind::Any),
    {
        Self::new(ValueKind::Any)
    }

    /// A string.
    pub fn string() -> (r: Self)
        ensures
            bare(r, ValueKind::String),
    {
        Self::new(ValueKind::String)
    }

    /// An integer.
    pub fn integer() -> (r: Self)
        ensures
            bare(r, ValueKind::Integer),
    {
        Self::new(ValueKind::Integer)
    }

    /// A number.
    pub fn number() -> (r: Self)
        ensures
            bare(r, ValueKind::Number),
    {
        Self::new(ValueKind::Number)
    }

    /// A boolean.
    pub fn boolean() -> (r: Self)
        ensures
            bare(r, ValueKind::Boolean),
    {
        Self::new(ValueKind::Boolean)
    }

    /// An object with `fields`.
    pub fn object(fields: Vec<FieldSchema>) -> (r: Self)
        ensures
            plain(r, ValueKind::Object),
            r.items is None,
            r.fields@ == fields@,
    {
        let mut r = Self::new(ValueKind::Object);
        r.fields = fields;
        r
    }

    /// An array whose items follow `items`.
    pub fn array(items: SchemaNode) -> (r: Self)
        ensures
            plain(r, ValueKind::Array),
            r.items == Some(Box::new(items)),
            r.fields@.len() == 0,
    {
        let mut r = Self::new(ValueKind::Array);
        r.items = Some(Box::new(items));
        r
    }

    /// With `description`.
    pub fn with_description(self, description: &str) -> (r: Self)
        ensures
            r == (SchemaNode { description: r.description, ..self }),
            r.description@ == description@,
    {
        let mut r = self;
        r.description = string_of(description);
        r
    }

    /// Also accepting `null`.
    pub fn nullable(self) -> (r: Self)
        ensures
            r == (SchemaNode { nullable: true, ..self }),
    {
        let mut r = self;
        r.nullable = true;
        r
    }

    /// With the default value `default`.
    pub fn with_default(self, default: JsonValue) -> (r: Self)
        ensures
            r == (SchemaNode { default: Some(default), ..self }),
    {
        let mut r = self;
        r.default = Some(default);
        r
    }

    /// Allowing only `values`.
    pub fn with_enum(self, values: Vec<JsonValue>) -> (r: Self)
        ensures
            r == (SchemaNode { enum_values: Some(values), ..self }),
    {
        let mut r = self;
        r.enum_values = Some(values);
        r
    }

    /// With the lower bound `minimum`.
    pub fn with_minimum(self, minimum: NumericBound) -> (r: Self)
        ensures
            r == (SchemaNode { minimum: Some(minimum), ..self }),
    {
        let mut r = self;
        r.minimum = Some(minimum);
        r
    }

    /// With the upper bound `maximum`.
    pub fn with_maximum(self, maximum: NumericBound) -> (r: Self)
        ensures
            r == (SchemaNode { maximum: Some(maximum), ..self }),
    {
        let mut r = self;
        r.maximum = Some(maximum);
        r
    }

    /// With the least string length `min_length`.
    pub fn with_min_length(self, min_length: u32) -> (r: Self)
        ensures
            r == (SchemaNode { min_length: Some(min_length), ..self }),
    {
        let mut r = self;
        r.min_length = Some(min_length);
        r
    }

    /// With the greatest string length `max_length`.
    pub fn with_max_length(self, max_length: u32) -> (r: Self)
        ensures
            r == (SchemaNode { max_length: Some(max_length), ..self }),
    {
        let mut r = self;
        r.max_length = Some(max_length);
        r
    }

    /// With the least item count `min_items`.
    pub fn with_min_items(self, min_items: u32) -> (r: Self)
        ensures
            r == (SchemaNode { min_items: Some(min_items), ..self }),
    {
        let mut r = self;
        r.min_items = Some(min_items);
        r
    }

    /// With the greatest item count `max_items`.
    pub fn with_max_items(self, max_items: u32) -> (r: Self)
        ensures
            r == (SchemaNode { max_items: Some(max_items), ..self }),
    {
        let mut r = self;
        r.max_items = Some(max_items);
        r
    }

    /// Requiring distinct items.
    pub fn unique_items(self) -> (r: Self)
        ensures
            r == (SchemaNode { unique_items: true, ..self }),
    {
        let mut r = self;
        r.unique_items = true;
        r
    }

    /// Refusing members that no field names.
    pub fn forbid_additional_properties(self) -> (r: Self)
        ensures
            r == (SchemaNode { additional_properties: AdditionalProperties::Forbidden, ..self }),
    {
        let mut r = self;
        r.additional_properties = AdditionalProperties::Forbidden;
        r
    }
}

impl FieldSchema {
    /// A field that must be present.
    pub fn required(name: &str, schema: SchemaNode) -> (r: Self)
        ensures
            r.name@ == name@,
            r.required,
            r.schema == schema,
    {
        FieldSchema { name: string_of(name), required: true, schema }
    }

    /// A field that may be absent.
    pub fn optional(name: &str, schema: SchemaNode) -> (r: Self)
        ensures
            r.name@ == name@,
            !r.required,
            r.schema == schema,
    {
        FieldSchema { name: string_of(name), required: false, schema }
    }
}

} // verus!
