use crate::ids::{identifier_result, DocumentId, EngineTypeId, IdError};
use crate::json::{
    find_member, json_clone, json_type_name, kind_name, lemma_model_parts, member_get, member_value,
    members_model, model, JsonModel, JsonValue, NumberRepr,
};
use crate::text::{push_str, string_of};
use vstd::prelude::*;

verus! {

/// How an identifier is refused.
pub open spec fn id_error_message(e: IdError) -> Seq<char> {
    match e {
        IdError::Empty => "identifier cannot be empty"@,
        IdError::InvalidCharacter(c) => "identifier contains invalid character: "@ + seq![c],
    }
}

/// `missing field `name``.
pub open spec fn missing_message(name: Seq<char>) -> Seq<char> {
    "missing field `"@ + name + "`"@
}

/// `invalid type: <kind>, expected <what>`.
pub open spec fn type_message(v: JsonModel, what: Seq<char>) -> Seq<char> {
    "invalid type: "@ + json_type_name(v) + ", expected "@ + what
}

/// A required identifier member.
pub open spec fn id_member(ms: Seq<(Seq<char>, JsonModel)>, name: Seq<char>) -> Result<Seq<char>, Seq<char>> {
    match member_get(ms, name) {
        None => Err(missing_message(name)),
        Some(JsonModel::String(s)) => match identifier_result(s) {
            Ok(()) => Ok(s),
            Err(e) => Err(id_error_message(e)),
        },
        Some(other) => Err(type_message(other, "a string"@)),
    }
}

/// A required text member.
pub open spec fn text_member(ms: Seq<(Seq<char>, JsonModel)>, name: Seq<char>) -> Result<Seq<char>, Seq<char>> {
    match member_get(ms, name) {
        None => Err(missing_message(name)),
        Some(JsonModel::String(s)) => Ok(s),
        Some(other) => Err(type_message(other, "a string"@)),
    }
}

/// An optional `u32` member, `default` when absent.
pub open spec fn count_member(ms: Seq<(Seq<char>, JsonModel)>, name: Seq<char>, default: u32) -> Result<u32, Seq<char>> {
    match member_get(ms, name) {
        None => Ok(default),
        Some(JsonModel::Number(NumberRepr::PosInt(n))) => if n <= u32::MAX {
            Ok(n as u32)
        } else {
            Err("invalid value: integer out of range, expected u32"@)
        },
        Some(JsonModel::Number(NumberRepr::NegInt(_))) => Err(
            "invalid value: integer out of range, expected u32"@,
        ),
        Some(other) => Err(type_message(other, "u32"@)),
    }
}

/// A value that is refused for not being an object.
pub open spec fn not_object_message(v: JsonModel, name: Seq<char>) -> Seq<char> {
    type_message(v, "struct "@ + name)
}

fn missing_field(name: &str) -> (m: String)
    ensures
        m@ == missing_message(name@),
{
    let mut m = string_of("missing field `");
    push_str(&mut m, name);
    push_str(&mut m, "`");
    m
}

fn wrong_type(v: &JsonValue, what: &str) -> (m: String)
    ensures
        m@ == type_message(model(*v), what@),
{
    let mut m = string_of("invalid type: ");
    push_str(&mut m, kind_name(v));
    push_str(&mut m, ", expected ");
    push_str(&mut m, what);
    m
}

/// The member of `ms` named `name`.
pub fn member<'a>(ms: &'a Vec<(String, JsonValue)>, name: &str) -> (r: Option<&'a JsonValue>)
    ensures
        match r {
            Some(v) => member_get(members_model(ms@), name@) == Some(model(*v)) && *v == member_value(
                ms@,
                name@,
            ),
            None => member_get(members_model(ms@), name@) is None && member_value(ms@, name@)
                == JsonValue::Null,
        },
{
    let key = string_of(name);
    match find_member(ms, &key) {
        Some(i) => {
            assert(members_model(ms@)[i as int].1 == model(ms@[i as int].1));
            Some(&ms[i].1)
        },
        None => None,
    }
}

/// Reads a required identifier member as a document identifier.
pub fn document_id_member(ms: &Vec<(String, JsonValue)>, name: &str) -> (r: Result<DocumentId, String>)
    ensures
        match id_member(members_model(ms@), name@) {
            Ok(s) => r matches Ok(id) && id.view() == s,
            Err(m) => r matches Err(e) && e@ == m,
        },
{
    match member(ms, name) {
        None => Err(missing_field(name)),
        Some(v) => match v {
            JsonValue::String(s) => match DocumentId::new(s.as_str()) {
                Ok(id) => Ok(id),
                Err(e) => Err(id_error(e)),
            },
            _ => Err(wrong_type(v, "a string")),
        },
    }
}

/// Reads a required identifier member as a type identifier.
pub fn type_id_member(ms: &Vec<(String, JsonValue)>, name: &str) -> (r: Result<EngineTypeId, String>)
    ensures
        match id_member(members_model(ms@), name@) {
            Ok(s) => r matches Ok(id) && id.view() == s,
            Err(m) => r matches Err(e) && e@ == m,
        },
{
    match member(ms, name) {
        None => Err(missing_field(name)),
        Some(v) => match v {
            JsonValue::String(s) => match EngineTypeId::new(s.as_str()) {
                Ok(id) => Ok(id),
                Err(e) => Err(id_error(e)),
            },
            _ => Err(wrong_type(v, "a string")),
        },
    }
}

/// Reads a required text member.
pub fn text_member_of(ms: &Vec<(String, JsonValue)>, name: &str) -> (r: Result<String, String>)
    ensures
        match text_member(members_model(ms@), name@) {
            Ok(s) => r matches Ok(t) && t@ == s,
            Err(m) => r matches Err(e) && e@ == m,
        },
{
    match member(ms, name) {
        None => Err(missing_field(name)),
        Some(v) => match v {
            JsonValue::String(s) => Ok(s.clone()),
            _ => Err(wrong_type(v, "a string")),
        },
    }
}

/// Reads an optional `u32` member.
pub fn count_member_of(ms: &Vec<(String, JsonValue)>, name: &str, default: u32) -> (r: Result<u32, String>)
    ensures
        match count_member(members_model(ms@), name@, default) {
            Ok(n) => r == Ok::<u32, String>(n),
            Err(m) => r matches Err(e) && e@ == m,
        },
{
    match member(ms, name) {
        None => Ok(default),
        Some(v) => match v {
            JsonValue::Number(n) => match n.repr {
                NumberRepr::PosInt(x) => if x <= 0xffff_ffff {
                    Ok(x as u32)
                } else {
                    Err(string_of("invalid value: integer out of range, expected u32"))
                },
                NumberRepr::NegInt(_) => Err(string_of("invalid value: integer out of range, expected u32")),
                NumberRepr::Float(_) => Err(wrong_type(v, "u32")),
            },
            _ => Err(wrong_type(v, "u32")),
        },
    }
}

/// The message of an identifier error.
pub fn id_error(e: IdError) -> (m: String)
    ensures
        m@ == id_error_message(e),
{
    match e {
        IdError::Empty => string_of("identifier cannot be empty"),
        IdError::InvalidCharacter(c) => {
            let mut m = string_of("identifier contains invalid character: ");
            crate::text::push_char(&mut m, c);
            m
        },
    }
}

/// The message for an input that is not an object.
pub fn not_object(v: &JsonValue, name: &str) -> (m: String)
    ensures
        m@ == not_object_message(model(*v), name@),
{
    let mut what = string_of("struct ");
    push_str(&mut what, name);
    wrong_type(v, what.as_str())
}

/// `missing field `name``.
pub fn missing_field_pub(name: &str) -> (m: String)
    ensures
        m@ == missing_message(name@),
{
    missing_field(name)
}

/// `invalid type: <kind of v>, expected <what>`.
pub fn wrong_type_pub(v: &JsonValue, what: &str) -> (m: String)
    ensures
        m@ == type_message(model(*v), what@),
{
    wrong_type(v, what)
}

} // verus!
