use super::{value_diags, SchemaNode, ValueKind};
use crate::diagnostics::{any_error, DiagnosticBag};
use crate::json::{
    find_member, is_null, json_clone, lemma_model_parts, member_get, member_set, members_model,
    model, set_member, items_model, JsonModel, JsonValue,
};
use vstd::prelude::*;

verus! {

/// The value after filling in defaults: missing object members whose field has a default
/// get it, then every named member is normalized by its field's schema and written back,
/// unless that gives `null` for a field that is not nullable. Array items are normalized
/// by the item schema; everything else is left as it is.
pub open spec fn normalized(node: SchemaNode, v: JsonModel) -> JsonModel
    decreases node, 1nat, 0int,
{
    match v {
        JsonModel::Object(ms) => if node.kind == ValueKind::Object {
            JsonModel::Object(normalized_members(node, ms, node.fields@.len() as int))
        } else {
            v
        },
        JsonModel::Array(xs) => if node.kind == ValueKind::Array {
            match node.items {
                Some(item_schema) => JsonModel::Array(normalized_items(*item_schema, xs)),
                None => v,
            }
        } else {
            v
        },
        _ => v,
    }
}

/// Each item normalized by `item_schema`.
pub open spec fn normalized_items(item_schema: SchemaNode, xs: Seq<JsonModel>) -> Seq<JsonModel>
    decreases item_schema, 2nat, 0int,
{
    Seq::new(xs.len(), |i: int| normalized(item_schema, xs[i]))
}

/// The members after the first `k` fields of `node` have been applied in order.
pub open spec fn normalized_members(node: SchemaNode, ms: Seq<(Seq<char>, JsonModel)>, k: int) -> Seq<
    (Seq<char>, JsonModel),
>
    decreases node, 0nat, k,
{
    if k <= 0 || k > node.fields@.len() {
        ms
    } else {
        field_step(node, k - 1, normalized_members(node, ms, k - 1))
    }
}

/// The members before field `k` is normalized, with its default filled in when absent.
pub open spec fn with_default(node: SchemaNode, k: int, ms: Seq<(Seq<char>, JsonModel)>) -> Seq<
    (Seq<char>, JsonModel),
> {
    let field = node.fields@[k];
    match field.schema.default {
        Some(d) => if member_get(ms, field.name@) is None {
            member_set(ms, field.name@, model(d))
        } else {
            ms
        },
        None => ms,
    }
}

/// Applying field `k` of `node` to the members `ms`.
pub open spec fn field_step(node: SchemaNode, k: int, ms: Seq<(Seq<char>, JsonModel)>) -> Seq<
    (Seq<char>, JsonModel),
>
    decreases node, 0nat, 0int,
{
    if 0 <= k < node.fields@.len() {
        let field = node.fields@[k];
        let filled = with_default(node, k, ms);
        match member_get(filled, field.name@) {
            Some(existing) => {
                let n = normalized(field.schema, existing);
                if !(n is Null) || field.schema.nullable {
                    member_set(filled, field.name@, n)
                } else {
                    filled
                }
            },
            None => filled,
        }
    } else {
        ms
    }
}

impl SchemaNode {
    /// Validates `value`; when no diagnostic is an error, the value with defaults filled
    /// in, else every diagnostic.
    pub fn validate_and_normalize(&self, value: &JsonValue) -> (r: Result<JsonValue, DiagnosticBag>)
        ensures
            match r {
                Ok(n) => !any_error(value_diags(*self, *value, Seq::empty())) && model(n)
                    == normalized(*self, model(*value)),
                Err(bag) => any_error(value_diags(*self, *value, Seq::empty())) && bag.view()
                    == value_diags(*self, *value, Seq::empty()),
            },
    {
        let bag = self.validate_value(value);
        if bag.has_errors() {
            return Err(bag);
        }
        Ok(self.normalize_value(value))
    }

    /// The value with defaults filled in (see `normalized`).
    pub fn normalize_value(&self, value: &JsonValue) -> (r: JsonValue)
        ensures
            model(r) == normalized(*self, model(*value)),
        decreases self, 3nat,
    {
        proof {
            lemma_model_parts(*value);
        }
        if is_null(value) {
            return json_clone(value);
        }
        match self.kind {
            ValueKind::Object => match value {
                JsonValue::Object(ms) => {
                    let out = self.normalize_members(ms);
                    let r = JsonValue::Object(out);
                    proof {
                        lemma_model_parts(r);
                        assert(model(*value) == JsonModel::Object(members_model(ms@)));
                        assert(model(r) == JsonModel::Object(members_model(out@)));
                        assert(normalized(*self, model(*value)) == JsonModel::Object(normalized_members(*self, members_model(ms@), self.fields@.len() as int)));
                    }
                    r
                },
                _ => {
                    let r = json_clone(value);
                    assert(!(model(*value) is Object));
                    assert(normalized(*self, model(*value)) == model(*value));
                    r
                },
            },
            ValueKind::Array => match value {
                JsonValue::Array(xs) => match &self.items {
                    Some(item_schema) => {
                        let mut out: Vec<JsonValue> = Vec::new();
                        let mut i: usize = 0;
                        while i < xs.len()
                            invariant
                                self.items == Some(*item_schema),
                                i <= xs@.len(),
                                out@.len() == i,
                                forall|j: int|
                                    0 <= j < i ==> model(#[trigger] out@[j]) == normalized(
                                        **item_schema,
                                        model(xs@[j]),
                                    ),
                            decreases xs@.len() - i,
                        {
                            proof {
                                assert(decreases_to!(*self => self.items));
                                assert(decreases_to!(*self => self.items->Some_0));
                            }
                            out.push(item_schema.normalize_value(&xs[i]));
                            i = i + 1;
                        }
                        let r = JsonValue::Array(out);
                        proof {
                            lemma_model_parts(r);
                            assert(items_model(out@) =~= normalized_items(
                                **item_schema,
                                items_model(xs@),
                            ));
                        }
                        r
                    },
                    None => json_clone(value),
                },
                _ => json_clone(value),
            },
            _ => json_clone(value),
        }
    }

    fn normalize_members(&self, ms: &Vec<(String, JsonValue)>) -> (r: Vec<(String, JsonValue)>)
        requires
            self.kind == ValueKind::Object,
        ensures
            members_model(r@) == normalized_members(
                *self,
                members_model(ms@),
                self.fields@.len() as int,
            ),
        decreases self, 2nat,
    {
        let ghost start = members_model(ms@);
        let mut result: Vec<(String, JsonValue)> = Vec::new();
        let mut i: usize = 0;
        while i < ms.len()
            invariant
                i <= ms@.len(),
                result@.len() == i,
                forall|j: int|
                    0 <= j < i ==> (#[trigger] result@[j]).0@ == ms@[j].0@ && model(result@[j].1)
                        == model(ms@[j].1),
            decreases ms@.len() - i,
        {
            let v = json_clone(&ms[i].1);
            result.push((ms[i].0.clone(), v));
            i = i + 1;
        }
        assert(members_model(result@) =~= start);
        let mut k: usize = 0;
        while k < self.fields.len()
            invariant
                k <= self.fields@.len(),
                members_model(result@) == normalized_members(*self, start, k as int),
            decreases self.fields@.len() - k,
        {
            self.apply_field(k, &mut result);
            k = k + 1;
        }
        result
    }

    fn fill_default(&self, k: usize, result: &mut Vec<(String, JsonValue)>)
        requires
            k < self.fields@.len(),
        ensures
            members_model(final(result)@) == with_default(*self, k as int, members_model(old(result)@)),
    {
        let field = &self.fields[k];
        if find_member(result, &field.name).is_none() {
            match &field.schema.default {
                Some(d) => {
                    let dv = json_clone(d);
                    set_member(result, field.name.clone(), dv);
                },
                None => {},
            }
        }
    }

    #[verifier::rlimit(100)]
    fn apply_field(&self, k: usize, result: &mut Vec<(String, JsonValue)>)
        requires
            k < self.fields@.len(),
        ensures
            members_model(final(result)@) == field_step(*self, k as int, members_model(old(result)@)),
        decreases self, 1nat,
    {
        let ghost before = members_model(result@);
        self.fill_default(k, result);
        let field = &self.fields[k];
        let ghost filled = members_model(result@);
        assert(filled == with_default(*self, k as int, before));
        assert(field_step(*self, k as int, before) == (match member_get(filled, self.fields@[k as int].name@) {
            Some(e) => {
                let n = normalized(self.fields@[k as int].schema, e);
                if !(n is Null) || self.fields@[k as int].schema.nullable {
                    member_set(filled, self.fields@[k as int].name@, n)
                } else {
                    filled
                }
            },
            None => filled,
        }));
        match find_member(result, &field.name) {
            Some(idx) => {
                proof {
                    vstd::std_specs::vec::axiom_vec_index_decreases(self.fields, k as int);
                    assert(decreases_to!(*self => self.fields));
                    assert(decreases_to!(*self => self.fields@[k as int].schema));
                    assert(filled[idx as int].1 == model(result@[idx as int].1));
                    assert(member_get(filled, field.name@) == Some(model(result@[idx as int].1)));
                }
                let n = field.schema.normalize_value(&result[idx].1);
                let ghost nm = model(n);
                assert(nm == normalized(field.schema, member_get(filled, field.name@)->Some_0));
                if !is_null(&n) || field.schema.nullable {
                    set_member(result, field.name.clone(), n);
                    assert(members_model(result@) == member_set(filled, field.name@, nm));
                    assert(members_model(result@) == field_step(*self, k as int, before));
                } else {
                    assert(members_model(result@) == filled);
                }
            },
            None => {
                assert(member_get(filled, field.name@) is None);
            },
        }
    }
}

} // verus!
