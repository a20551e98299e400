use crate::json_text::{item_texts, member_texts, render};
use crate::text::{push_char, push_str};
use vstd::arithmetic::power2::{lemma2_to64, lemma2_to64_rest, lemma_pow2_strictly_increases, pow2};
use vstd::prelude::*;

verus! {

/// The exact rational `mantissa · 2^exponent`; every finite double has such a form.
#[derive(Debug, Clone, Copy, PartialEq, Eq, Structural)]
pub struct Dyadic {
    pub mantissa: i64,
    pub exponent: i32,
}

/// Largest mantissa magnitude (2^63).
pub open spec fn mantissa_limit() -> int {
    0x8000000000000000
}

/// `m · 2^(e - base)` for `e >= base`.
pub open spec fn scaled(m: int, e: int, base: int) -> int {
    m * pow2((e - base) as nat)
}

/// The smaller of two exponents.
pub open spec fn min_exponent(a: Dyadic, b: Dyadic) -> int {
    if a.exponent <= b.exponent {
        a.exponent as int
    } else {
        b.exponent as int
    }
}

/// `a < b` as rationals.
pub open spec fn dyadic_lt(a: Dyadic, b: Dyadic) -> bool {
    let base = min_exponent(a, b);
    scaled(a.mantissa as int, a.exponent as int, base) < scaled(
        b.mantissa as int,
        b.exponent as int,
        base,
    )
}

fn pow2_exec(d: u32) -> (p: i128)
    requires
        d < 64,
    ensures
        p == pow2(d as nat),
        1 <= p <= 0x8000000000000000,
{
    proof {
        lemma2_to64();
        lemma2_to64_rest();
    }
    let mut p: i128 = 1;
    let mut k: u32 = 0;
    while k < d
        invariant
            k <= d < 64,
            p == pow2(k as nat),
            1 <= p <= 0x8000000000000000,
        decreases d - k,
    {
        proof {
            lemma2_to64();
            lemma2_to64_rest();
            vstd::arithmetic::power2::lemma_pow2_unfold((k + 1) as nat);
            if k + 1 < 63 {
                lemma_pow2_strictly_increases((k + 1) as nat, 63);
            }
        }
        p = p * 2;
        k = k + 1;
    }
    p
}

proof fn lemma_scaled_same(m: int, e: int)
    ensures
        scaled(m, e, e) == m,
{
    lemma2_to64();
    assert(pow2(0nat) == 1);
    assert(((e - e) as nat) == 0nat);
    assert(m * 1 == m);
}

proof fn lemma_far_apart(m: int, d: nat, other: int)
    requires
        d >= 64,
        -mantissa_limit() <= other < mantissa_limit(),
    ensures
        m > 0 ==> m * pow2(d) > other,
        m < 0 ==> m * pow2(d) < other,
        m == 0 ==> m * pow2(d) == 0,
{
    lemma2_to64();
    lemma2_to64_rest();
    if d > 64 {
        lemma_pow2_strictly_increases(64, d);
    }
    let p = pow2(d);
    assert(p >= 0x10000000000000000);
    if m > 0 {
        assert(m * p >= p) by (nonlinear_arith)
            requires
                m >= 1,
                p > 0,
        ;
    } else if m < 0 {
        assert(m * p <= -p) by (nonlinear_arith)
            requires
                m <= -1,
                p > 0,
        ;
    } else {
        assert(m * p == 0);
    }
}

/// Whether `a < b` as rationals.
pub fn dyadic_less(a: Dyadic, b: Dyadic) -> (r: bool)
    ensures
        r == dyadic_lt(a, b),
{
    if a.exponent >= b.exponent {
        let d: u32 = (a.exponent as i64 - b.exponent as i64) as u32;
        proof {
            lemma_scaled_same(b.mantissa as int, b.exponent as int);
        }
        if d >= 64 {
            proof {
                lemma_far_apart(a.mantissa as int, d as nat, b.mantissa as int);
            }
            if a.mantissa == 0 {
                0 < b.mantissa
            } else {
                a.mantissa < 0
            }
        } else {
            let p = pow2_exec(d);
            proof {
                assert(-mantissa_limit() * 0x8000000000000000 <= a.mantissa * p <= mantissa_limit()
                    * 0x8000000000000000) by (nonlinear_arith)
                    requires
                        -mantissa_limit() <= a.mantissa <= mantissa_limit(),
                        1 <= p <= 0x8000000000000000,
                ;
            }
            let x: i128 = (a.mantissa as i128) * p;
            x < b.mantissa as i128
        }
    } else {
        let d: u32 = (b.exponent as i64 - a.exponent as i64) as u32;
        proof {
            lemma_scaled_same(a.mantissa as int, a.exponent as int);
        }
        if d >= 64 {
            proof {
                lemma_far_apart(b.mantissa as int, d as nat, a.mantissa as int);
            }
            if b.mantissa == 0 {
                a.mantissa < 0
            } else {
                b.mantissa > 0
            }
        } else {
            let p = pow2_exec(d);
            proof {
                assert(-mantissa_limit() * 0x8000000000000000 <= b.mantissa * p <= mantissa_limit()
                    * 0x8000000000000000) by (nonlinear_arith)
                    requires
                        -mantissa_limit() <= b.mantissa <= mantissa_limit(),
                        1 <= p <= 0x8000000000000000,
                ;
            }
            let y: i128 = (b.mantissa as i128) * p;
            (a.mantissa as i128) < y
        }
    }
}

/// How a JSON number was written: a non-negative integer, a negative integer, or a
/// double (held exactly as a dyadic rational).
#[derive(Debug, Clone, Copy, PartialEq, Eq, Structural)]
pub enum NumberRepr {
    PosInt(u64),
    NegInt(i64),
    Float(Dyadic),
}

/// A JSON number.
///
/// `approx` is the number converted to a double (exact for doubles, rounded for large
/// integers); `text` is that double as Rust displays it; `json_text` is the number as
/// JSON renders it.
#[derive(Debug, Clone, PartialEq)]
pub struct JsonNumber {
    pub repr: NumberRepr,
    pub approx: Dyadic,
    pub text: String,
    pub json_text: String,
}

impl JsonNumber {
    /// Written as an integer.
    pub open spec fn is_integer(&self) -> bool {
        self.repr is PosInt || self.repr is NegInt
    }
}

/// A JSON document value. Object members keep the order in which they are stored
/// (for values read from JSON, ascending key order).
#[derive(Debug)]
pub enum JsonValue {
    Null,
    Bool(bool),
    Number(JsonNumber),
    String(String),
    Array(Vec<JsonValue>),
    Object(Vec<(String, JsonValue)>),
}

/// A JSON document as a mathematical value: numbers by how they were written, strings
/// and keys as character sequences.
pub enum JsonModel {
    Null,
    Bool(bool),
    Number(NumberRepr),
    String(Seq<char>),
    Array(Seq<JsonModel>),
    Object(Seq<(Seq<char>, JsonModel)>),
}

/// The mathematical value of a JSON document.
pub open spec fn model(v: JsonValue) -> JsonModel
    decreases v,
{
    match v {
        JsonValue::Null => JsonModel::Null,
        JsonValue::Bool(b) => JsonModel::Bool(b),
        JsonValue::Number(n) => JsonModel::Number(n.repr),
        JsonValue::String(s) => JsonModel::String(s@),
        JsonValue::Array(xs) => JsonModel::Array(
            Seq::new(
                xs@.len(),
                |i: int|
                    if 0 <= i < xs@.len() {
                        model(xs@[i])
                    } else {
                        JsonModel::Null
                    },
            ),
        ),
        JsonValue::Object(ms) => JsonModel::Object(
            Seq::new(
                ms@.len(),
                |i: int|
                    if 0 <= i < ms@.len() {
                        (ms@[i].0@, model(ms@[i].1))
                    } else {
                        (Seq::empty(), JsonModel::Null)
                    },
            ),
        ),
    }
}

/// The models of the members of an object, in order.
pub open spec fn members_model(ms: Seq<(String, JsonValue)>) -> Seq<(Seq<char>, JsonModel)> {
    Seq::new(ms.len(), |i: int| (ms[i].0@, model(ms[i].1)))
}

/// The models of a list of values.
pub open spec fn items_model(xs: Seq<JsonValue>) -> Seq<JsonModel> {
    Seq::new(xs.len(), |i: int| model(xs[i]))
}

pub proof fn lemma_model_parts(v: JsonValue)
    ensures
        v matches JsonValue::Array(xs) ==> model(v) == JsonModel::Array(items_model(xs@)),
        v matches JsonValue::Object(ms) ==> model(v) == JsonModel::Object(members_model(ms@)),
{
    match v {
        JsonValue::Array(xs) => {
            assert(model(v)->Array_0 =~= items_model(xs@));
        },
        JsonValue::Object(ms) => {
            assert(model(v)->Object_0 =~= members_model(ms@));
        },
        _ => {},
    }
}

/// Whether two JSON values are equal (numbers compare by how they were written).
pub fn json_equal(a: &JsonValue, b: &JsonValue) -> (r: bool)
    ensures
        r == (model(*a) == model(*b)),
    decreases a,
{
    proof {
        lemma_model_parts(*a);
        lemma_model_parts(*b);
    }
    match a {
        JsonValue::Null => matches!(b, JsonValue::Null),
        JsonValue::Bool(x) => match b {
            JsonValue::Bool(y) => *x == *y,
            _ => false,
        },
        JsonValue::Number(x) => match b {
            JsonValue::Number(y) => x.repr == y.repr,
            _ => false,
        },
        JsonValue::String(x) => match b {
            JsonValue::String(y) => *x == *y,
            _ => false,
        },
        JsonValue::Array(xs) => match b {
            JsonValue::Array(ys) => {
                if xs.len() != ys.len() {
                    assert(items_model(xs@).len() != items_model(ys@).len());
                    return false;
                }
                let mut i: usize = 0;
                while i < xs.len()
                    invariant
                        *a == JsonValue::Array(*xs),
                        *b == JsonValue::Array(*ys),
                        model(*a) == JsonModel::Array(items_model(xs@)),
                        model(*b) == JsonModel::Array(items_model(ys@)),
                        xs@.len() == ys@.len(),
                        i <= xs@.len(),
                        forall|j: int| 0 <= j < i ==> model(#[trigger] xs@[j]) == model(ys@[j]),
                    decreases xs@.len() - i,
                {
                    proof {
                        vstd::std_specs::vec::axiom_vec_index_decreases(*xs, i as int);
                        assert(decreases_to!(*a => (*a)->Array_0));
                        assert(decreases_to!(*a => xs[i as int]));
                    }
                    if !json_equal(&xs[i], &ys[i]) {
                        assert(items_model(xs@)[i as int] != items_model(ys@)[i as int]);
                        return false;
                    }
                    i = i + 1;
                }
                assert(items_model(xs@) =~= items_model(ys@));
                true
            },
            _ => false,
        },
        JsonValue::Object(xs) => match b {
            JsonValue::Object(ys) => {
                if xs.len() != ys.len() {
                    assert(members_model(xs@).len() != members_model(ys@).len());
                    return false;
                }
                let mut i: usize = 0;
                while i < xs.len()
                    invariant
                        *a == JsonValue::Object(*xs),
                        *b == JsonValue::Object(*ys),
                        model(*a) == JsonModel::Object(members_model(xs@)),
                        model(*b) == JsonModel::Object(members_model(ys@)),
                        xs@.len() == ys@.len(),
                        i <= xs@.len(),
                        forall|j: int|
                            0 <= j < i ==> (#[trigger] xs@[j]).0@ == ys@[j].0@ && model(xs@[j].1)
                                == model(ys@[j].1),
                    decreases xs@.len() - i,
                {
                    if xs[i].0 != ys[i].0 {
                        assert(members_model(xs@)[i as int] != members_model(ys@)[i as int]);
                        return false;
                    }
                    proof {
                        vstd::std_specs::vec::axiom_vec_index_decreases(*xs, i as int);
                        assert(decreases_to!(*a => (*a)->Object_0));
                        assert(decreases_to!(*a => xs[i as int]));
                        assert(decreases_to!(*a => xs[i as int].1));
                    }
                    if !json_equal(&xs[i].1, &ys[i].1) {
                        assert(members_model(xs@)[i as int] != members_model(ys@)[i as int]);
                        return false;
                    }
                    i = i + 1;
                }
                assert(members_model(xs@) =~= members_model(ys@));
                true
            },
            _ => false,
        },
    }
}

/// A copy of a JSON value, with the same numbers, texts and members.
pub fn json_clone(a: &JsonValue) -> (r: JsonValue)
    ensures
        model(r) == model(*a),
        render(r) == render(*a),
    decreases a,
{
    proof {
        lemma_model_parts(*a);
    }
    match a {
        JsonValue::Null => JsonValue::Null,
        JsonValue::Bool(x) => JsonValue::Bool(*x),
        JsonValue::Number(x) => JsonValue::Number(
            JsonNumber {
                repr: x.repr,
                approx: x.approx,
                text: x.text.clone(),
                json_text: x.json_text.clone(),
            },
        ),
        JsonValue::String(x) => JsonValue::String(x.clone()),
        JsonValue::Array(xs) => {
            let mut out: Vec<JsonValue> = Vec::new();
            let mut i: usize = 0;
            while i < xs.len()
                invariant
                    *a == JsonValue::Array(*xs),
                    i <= xs@.len(),
                    out@.len() == i,
                    forall|j: int| 0 <= j < i ==> model(#[trigger] out@[j]) == model(xs@[j]),
                    forall|j: int| 0 <= j < i ==> render(#[trigger] out@[j]) == render(xs@[j]),
                decreases xs@.len() - i,
            {
                proof {
                    vstd::std_specs::vec::axiom_vec_index_decreases(*xs, i as int);
                    assert(decreases_to!(*a => (*a)->Array_0));
                    assert(decreases_to!(*a => xs[i as int]));
                }
                out.push(json_clone(&xs[i]));
                i = i + 1;
            }
            let r = JsonValue::Array(out);
            proof {
                lemma_model_parts(r);
                assert(items_model(out@) =~= items_model(xs@));
                assert(item_texts(r) =~= item_texts(*a));
            }
            r
        },
        JsonValue::Object(xs) => {
            let mut out: Vec<(String, JsonValue)> = Vec::new();
            let mut i: usize = 0;
            while i < xs.len()
                invariant
                    *a == JsonValue::Object(*xs),
                    i <= xs@.len(),
                    out@.len() == i,
                    forall|j: int|
                        0 <= j < i ==> (#[trigger] out@[j]).0@ == xs@[j].0@ && model(out@[j].1)
                            == model(xs@[j].1) && render(out@[j].1) == render(xs@[j].1),
                decreases xs@.len() - i,
            {
                proof {
                    vstd::std_specs::vec::axiom_vec_index_decreases(*xs, i as int);
                    assert(decreases_to!(*a => (*a)->Object_0));
                    assert(decreases_to!(*a => xs[i as int]));
                    assert(decreases_to!(*a => xs[i as int].1));
                }
                let v = json_clone(&xs[i].1);
                out.push((xs[i].0.clone(), v));
                i = i + 1;
            }
            let r = JsonValue::Object(out);
            proof {
                lemma_model_parts(r);
                assert(members_model(out@) =~= members_model(xs@));
                assert(member_texts(r) =~= member_texts(*a));
            }
            r
        },
    }
}

/// Whether the value is JSON `null`.
pub fn is_null(v: &JsonValue) -> (r: bool)
    ensures
        r == (model(*v) is Null),
{
    matches!(v, JsonValue::Null)
}

/// The name JSON gives the kind of a value.
pub open spec fn json_type_name(v: JsonModel) -> Seq<char> {
    match v {
        JsonModel::Null => "null"@,
        JsonModel::Bool(_) => "boolean"@,
        JsonModel::Number(_) => "number"@,
        JsonModel::String(_) => "string"@,
        JsonModel::Array(_) => "array"@,
        JsonModel::Object(_) => "object"@,
    }
}

/// The name JSON gives the kind of a value.
pub fn kind_name(v: &JsonValue) -> (s: &'static str)
    ensures
        s@ == json_type_name(model(*v)),
{
    match v {
        JsonValue::Null => "null",
        JsonValue::Bool(_) => "boolean",
        JsonValue::Number(_) => "number",
        JsonValue::String(_) => "string",
        JsonValue::Array(_) => "array",
        JsonValue::Object(_) => "object",
    }
}

/// Index of the first member whose key is `key`.
pub open spec fn find_key(ms: Seq<(Seq<char>, JsonModel)>, key: Seq<char>) -> Option<int> {
    if exists|i: int| 0 <= i < ms.len() && (#[trigger] ms[i]).0 == key {
        Some(choose|i: int| 0 <= i < ms.len() && ms[i].0 == key && forall|j: int| 0 <= j < i ==> (#[trigger] ms[j]).0 != key)
    } else {
        None
    }
}

/// The value stored under `key` (the first such member), if any.
pub open spec fn member_get(ms: Seq<(Seq<char>, JsonModel)>, key: Seq<char>) -> Option<JsonModel> {
    match find_key(ms, key) {
        Some(i) => Some(ms[i].1),
        None => None,
    }
}

/// Strict lexicographic order on texts, by character code.
pub open spec fn text_lt(a: Seq<char>, b: Seq<char>) -> bool
    decreases a.len(),
{
    if b.len() == 0 {
        false
    } else if a.len() == 0 {
        true
    } else if (a[0] as u32) < (b[0] as u32) {
        true
    } else if (a[0] as u32) > (b[0] as u32) {
        false
    } else {
        text_lt(a.drop_first(), b.drop_first())
    }
}

proof fn lemma_char_code(c: char, d: char)
    requires
        (c as u32) == (d as u32),
    ensures
        c == d,
{
}

/// No text sorts before itself.
pub proof fn lemma_text_lt_irreflexive(a: Seq<char>)
    ensures
        !text_lt(a, a),
    decreases a.len(),
{
    if a.len() > 0 {
        lemma_text_lt_irreflexive(a.drop_first());
    }
}

/// Of two different texts, one sorts before the other.
pub proof fn lemma_text_lt_total(a: Seq<char>, b: Seq<char>)
    requires
        a != b,
    ensures
        text_lt(a, b) || text_lt(b, a),
    decreases a.len(),
{
    if a.len() > 0 && b.len() > 0 && (a[0] as u32) == (b[0] as u32) {
        lemma_char_code(a[0], b[0]);
        if a.drop_first() == b.drop_first() {
            assert(a =~= seq![a[0]] + a.drop_first());
            assert(b =~= seq![b[0]] + b.drop_first());
        }
        lemma_text_lt_total(a.drop_first(), b.drop_first());
    } else if a.len() == 0 && b.len() == 0 {
        assert(a =~= b);
    }
}

/// The order on texts is transitive.
pub proof fn lemma_text_lt_transitive(a: Seq<char>, b: Seq<char>, c: Seq<char>)
    requires
        text_lt(a, b),
        text_lt(b, c),
    ensures
        text_lt(a, c),
    decreases a.len(),
{
    if a.len() > 0 && (a[0] as u32) == (b[0] as u32) && (b[0] as u32) == (c[0] as u32) {
        lemma_text_lt_transitive(a.drop_first(), b.drop_first(), c.drop_first());
    }
}

/// The order on texts is asymmetric.
pub proof fn lemma_text_lt_asymmetric(a: Seq<char>, b: Seq<char>)
    requires
        text_lt(a, b),
    ensures
        !text_lt(b, a),
{
    if text_lt(b, a) {
        lemma_text_lt_transitive(a, b, a);
        lemma_text_lt_irreflexive(a);
    }
}

/// Position at which a new key goes: before the first member with a greater key.
pub open spec fn insert_position(ms: Seq<(Seq<char>, JsonModel)>, key: Seq<char>) -> int {
    if exists|i: int| 0 <= i < ms.len() && text_lt(key, (#[trigger] ms[i]).0) {
        choose|i: int| 0 <= i < ms.len() && text_lt(key, ms[i].0) && forall|j: int| 0 <= j < i ==> !text_lt(key, (#[trigger] ms[j]).0)
    } else {
        ms.len() as int
    }
}

/// Sets `key` to `v`: replaces the value of an existing member in place, or inserts a new
/// member before the first greater key (as an ordered map does).
pub open spec fn member_set(ms: Seq<(Seq<char>, JsonModel)>, key: Seq<char>, v: JsonModel) -> Seq<(Seq<char>, JsonModel)> {
    match find_key(ms, key) {
        Some(i) => ms.update(i, (key, v)),
        None => ms.insert(insert_position(ms, key), (key, v)),
    }
}

/// A predicate that holds somewhere below `n` holds at a first place.
proof fn lemma_first_place(n: int, p: spec_fn(int) -> bool, k: int)
    requires
        0 <= k < n,
        p(k),
    ensures
        exists|i: int| 0 <= i < n && #[trigger] p(i) && forall|j: int| 0 <= j < i ==> !#[trigger] p(j),
    decreases k,
{
    if exists|j: int| 0 <= j < k && #[trigger] p(j) {
        let j = choose|j: int| 0 <= j < k && #[trigger] p(j);
        lemma_first_place(n, p, j);
    } else {
        assert(0 <= k < n && p(k) && forall|j: int| 0 <= j < k ==> !#[trigger] p(j));
    }
}

/// `find_key` finds the first member named `key`, if there is one.
pub proof fn lemma_find_key(ms: Seq<(Seq<char>, JsonModel)>, key: Seq<char>)
    ensures
        match find_key(ms, key) {
            Some(i) => 0 <= i < ms.len() && ms[i].0 == key && forall|j: int| 0 <= j < i ==> ms[j].0 != key,
            None => forall|j: int| 0 <= j < ms.len() ==> ms[j].0 != key,
        },
{
    if exists|i: int| 0 <= i < ms.len() && (#[trigger] ms[i]).0 == key {
        let k = choose|i: int| 0 <= i < ms.len() && (#[trigger] ms[i]).0 == key;
        let p = |i: int| ms[i].0 == key;
        lemma_first_place(ms.len() as int, p, k);
        let i = choose|i: int| 0 <= i < ms.len() && #[trigger] p(i) && forall|j: int| 0 <= j < i ==> !#[trigger] p(j);
        assert forall|j: int| 0 <= j < i implies (#[trigger] ms[j]).0 != key by {
            assert(!p(j));
        }
        assert(0 <= i < ms.len() && ms[i].0 == key && forall|j: int| 0 <= j < i ==> (#[trigger] ms[j]).0 != key);
    }
}

/// A member named `key` with none before it is what `find_key` finds.
proof fn lemma_find_key_at(ms: Seq<(Seq<char>, JsonModel)>, key: Seq<char>, i: int)
    requires
        0 <= i < ms.len(),
        ms[i].0 == key,
        forall|j: int| 0 <= j < i ==> ms[j].0 != key,
    ensures
        find_key(ms, key) == Some(i),
{
    lemma_find_key(ms, key);
    let k = find_key(ms, key)->Some_0;
    if k < i {
        assert(ms[k].0 != key);
    } else if k > i {
        assert(ms[i].0 != key);
    }
}

/// Where `insert_position` puts a new member lies within the members.
proof fn lemma_insert_position(ms: Seq<(Seq<char>, JsonModel)>, key: Seq<char>)
    ensures
        0 <= insert_position(ms, key) <= ms.len(),
{
    if exists|i: int| 0 <= i < ms.len() && text_lt(key, (#[trigger] ms[i]).0) {
        let k = choose|i: int| 0 <= i < ms.len() && text_lt(key, (#[trigger] ms[i]).0);
        let p = |i: int| text_lt(key, ms[i].0);
        lemma_first_place(ms.len() as int, p, k);
        let i = choose|i: int| 0 <= i < ms.len() && #[trigger] p(i) && forall|j: int| 0 <= j < i ==> !#[trigger] p(j);
        assert forall|j: int| 0 <= j < i implies !text_lt(key, (#[trigger] ms[j]).0) by {
            assert(!p(j));
        }
        assert(0 <= i < ms.len() && text_lt(key, ms[i].0) && forall|j: int| 0 <= j < i ==> !text_lt(key, (#[trigger] ms[j]).0));
    }
}

proof fn lemma_member_update(ms: Seq<(Seq<char>, JsonModel)>, key: Seq<char>, v: JsonModel, other: Seq<char>, i: int)
    requires
        find_key(ms, key) == Some(i),
    ensures
        member_get(ms.update(i, (key, v)), key) == Some(v),
        other != key ==> member_get(ms.update(i, (key, v)), other) == member_get(ms, other),
{
    lemma_find_key(ms, key);
    lemma_find_key(ms, other);
    let t = ms.update(i, (key, v));
    lemma_find_key_at(t, key, i);
    if other != key {
        lemma_find_key(t, other);
        match find_key(ms, other) {
            Some(j) => {
                assert(t[j] == ms[j]);
                lemma_find_key_at(t, other, j);
            },
            None => {
                if find_key(t, other) is Some {
                    let j = find_key(t, other)->Some_0;
                    if j != i {
                        assert(t[j] == ms[j]);
                    }
                }
            },
        }
    }
}

proof fn lemma_member_insert(ms: Seq<(Seq<char>, JsonModel)>, key: Seq<char>, v: JsonModel, other: Seq<char>, p: int)
    requires
        find_key(ms, key) is None,
        0 <= p <= ms.len(),
    ensures
        member_get(ms.insert(p, (key, v)), key) == Some(v),
        other != key ==> member_get(ms.insert(p, (key, v)), other) == member_get(ms, other),
{
    lemma_find_key(ms, key);
    lemma_find_key(ms, other);
    let t = ms.insert(p, (key, v));
    assert forall|j: int| 0 <= j < p implies t[j].0 != key by {
        assert(t[j] == ms[j]);
    }
    lemma_find_key_at(t, key, p);
    if other != key {
        lemma_find_key(t, other);
        match find_key(ms, other) {
            Some(j) => {
                let jt = if j < p { j } else { j + 1 };
                assert(t[jt] == ms[j]);
                assert forall|m: int| 0 <= m < jt implies t[m].0 != other by {
                    if m < p {
                        assert(t[m] == ms[m]);
                    } else if m > p {
                        assert(t[m] == ms[m - 1]);
                    }
                }
                lemma_find_key_at(t, other, jt);
            },
            None => {
                if find_key(t, other) is Some {
                    let m = find_key(t, other)->Some_0;
                    if m < p {
                        assert(t[m] == ms[m]);
                    } else if m > p {
                        assert(t[m] == ms[m - 1]);
                    }
                }
            },
        }
    }
}

/// Setting a member gives it the new value and leaves every other member as it was.
pub proof fn lemma_member_set_get(ms: Seq<(Seq<char>, JsonModel)>, key: Seq<char>, v: JsonModel, other: Seq<char>)
    ensures
        member_get(member_set(ms, key, v), key) == Some(v),
        other != key ==> member_get(member_set(ms, key, v), other) == member_get(ms, other),
{
    match find_key(ms, key) {
        Some(i) => lemma_member_update(ms, key, v, other, i),
        None => {
            lemma_insert_position(ms, key);
            lemma_member_insert(ms, key, v, other, insert_position(ms, key));
        },
    }
}

/// Index of the first member named `key`.
pub fn find_member(ms: &Vec<(String, JsonValue)>, key: &String) -> (r: Option<usize>)
    ensures
        match r {
            Some(i) => i < ms@.len() && find_key(members_model(ms@), key@) == Some(i as int),
            None => find_key(members_model(ms@), key@) is None,
        },
{
    let ghost mm = members_model(ms@);
    let mut i: usize = 0;
    while i < ms.len()
        invariant
            mm == members_model(ms@),
            i <= ms@.len(),
            forall|j: int| 0 <= j < i ==> (#[trigger] mm[j]).0 != key@,
        decreases ms@.len() - i,
    {
        if ms[i].0 == *key {
            proof {
                assert(mm[i as int].0 == key@);
                let w = choose|w: int| 0 <= w < mm.len() && mm[w].0 == key@ && forall|j: int| 0 <= j < w ==> (#[trigger] mm[j]).0 != key@;
                if w < i {
                    assert(mm[w].0 != key@);
                } else if w > i {
                    assert(mm[i as int].0 != key@);
                }
            }
            return Some(i);
        }
        i = i + 1;
    }
    None
}

/// The value that a field's member holds, (`null` when absent).
pub open spec fn member_value(members: Seq<(String, JsonValue)>, name: Seq<char>) -> JsonValue {
    match find_key(members_model(members), name) {
        Some(idx) => members[idx].1,
        None => JsonValue::Null,
    }
}

/// Whether `a` sorts strictly before `b`.
pub fn text_less(a: &str, b: &str) -> (r: bool)
    ensures
        r == text_lt(a@, b@),
{
    let x = crate::text::chars_of(a);
    let y = crate::text::chars_of(b);
    let mut i: usize = 0;
    assert(a@.skip(0) =~= a@);
    assert(b@.skip(0) =~= b@);
    while i < x.len() && i < y.len()
        invariant
            x@ == a@,
            y@ == b@,
            i <= x@.len(),
            i <= y@.len(),
            text_lt(a@, b@) == text_lt(a@.skip(i as int), b@.skip(i as int)),
        decreases x@.len() - i,
    {
        let cx = x[i] as u32;
        let cy = y[i] as u32;
        if cx < cy {
            return true;
        }
        if cx > cy {
            return false;
        }
        assert(a@.skip(i as int).drop_first() =~= a@.skip(i as int + 1));
        assert(b@.skip(i as int).drop_first() =~= b@.skip(i as int + 1));
        i = i + 1;
    }
    i < y.len()
}

/// Sets member `key` to `v` (see `member_set`).
pub fn set_member(ms: &mut Vec<(String, JsonValue)>, key: String, v: JsonValue)
    ensures
        members_model(final(ms)@) == member_set(members_model(old(ms)@), key@, model(v)),
{
    let ghost mm = members_model(ms@);
    match find_member(ms, &key) {
        Some(i) => {
            let ghost k = key@;
            let ghost mv = model(v);
            ms.set(i, (key, v));
            assert(members_model(ms@) =~= mm.update(i as int, (k, mv)));
        },
        None => {
            let mut pos: usize = 0;
            while pos < ms.len() && !text_less(key.as_str(), ms[pos].0.as_str())
                invariant
                    mm == members_model(ms@),
                    pos <= ms@.len(),
                    forall|j: int| 0 <= j < pos ==> !text_lt(key@, (#[trigger] mm[j]).0),
                decreases ms@.len() - pos,
            {
                pos = pos + 1;
            }
            proof {
                if pos < ms@.len() {
                    assert(text_lt(key@, mm[pos as int].0));
                }
                let ip = insert_position(mm, key@);
                if exists|i: int| 0 <= i < mm.len() && text_lt(key@, (#[trigger] mm[i]).0) {
                    let w = choose|w: int| 0 <= w < mm.len() && text_lt(key@, mm[w].0) && forall|j: int| 0 <= j < w ==> !text_lt(key@, (#[trigger] mm[j]).0);
                    if w < pos {
                        assert(!text_lt(key@, mm[w].0));
                    } else if w > pos {
                        assert(pos < mm.len());
                        assert(!text_lt(key@, mm[pos as int].0));
                    }
                    assert(ip == pos);
                } else {
                    if pos < mm.len() {
                        assert(text_lt(key@, mm[pos as int].0));
                    }
                    assert(ip == pos);
                }
            }
            let ghost k = key@;
            let ghost mv = model(v);
            ms.insert(pos, (key, v));
            assert(members_model(ms@) =~= mm.insert(pos as int, (k, mv)));
        },
    }
}

/// The members after setting each pair in order, starting from `ms`.
pub open spec fn set_all(ms: Seq<(Seq<char>, JsonModel)>, pairs: Seq<(Seq<char>, JsonModel)>) -> Seq<
    (Seq<char>, JsonModel),
>
    decreases pairs.len(),
{
    if pairs.len() == 0 {
        ms
    } else {
        member_set(set_all(ms, pairs.drop_last()), pairs.last().0, pairs.last().1)
    }
}

/// The object built by setting each pair in order (a later pair replaces an earlier one
/// with the same key; keys end up in ascending order).
pub open spec fn object_model(pairs: Seq<(Seq<char>, JsonModel)>) -> JsonModel {
    JsonModel::Object(set_all(Seq::empty(), pairs))
}

/// The object built from `pairs` (see `object_model`).
pub fn json_object(pairs: Vec<(String, JsonValue)>) -> (v: JsonValue)
    ensures
        model(v) == object_model(members_model(pairs@)),
{
    let ghost all = members_model(pairs@);
    let mut rest = pairs;
    let mut out: Vec<(String, JsonValue)> = Vec::new();
    let ghost mut done: int = 0;
    assert(members_model(out@) =~= set_all(Seq::empty(), all.take(0)));
    assert(members_model(rest@) =~= all.skip(0));
    while rest.len() > 0
        invariant
            0 <= done <= all.len(),
            rest@.len() == all.len() - done,
            members_model(rest@) == all.skip(done),
            members_model(out@) == set_all(Seq::empty(), all.take(done)),
        decreases rest@.len(),
    {
        let ghost before_rest = members_model(rest@);
        let ghost raw = rest@;
        let (k, x) = rest.remove(0);
        proof {
            assert(rest@ =~= raw.drop_first());
            assert forall|i: int| 0 <= i < rest@.len() implies #[trigger] members_model(rest@)[i] == all.skip(done + 1)[i] by {
                assert(rest@[i] == raw[i + 1]);
                assert(before_rest[i + 1] == all.skip(done)[i + 1]);
            }
            assert(before_rest[0] == all[done]);
            assert(all.take(done + 1).drop_last() =~= all.take(done));
            assert(all.take(done + 1).last() == all[done]);
            assert(members_model(rest@) =~= all.skip(done + 1));
        }
        set_member(&mut out, k, x);
        proof {
            done = done + 1;
        }
    }
    assert(all.take(done) =~= all);
    let v = JsonValue::Object(out);
    proof {
        lemma_model_parts(v);
    }
    v
}

/// A JSON string.
pub fn json_string(s: &str) -> (v: JsonValue)
    ensures
        model(v) == JsonModel::String(s@),
{
    JsonValue::String(crate::text::string_of(s))
}

/// A non-negative JSON integer.
pub fn json_u64(n: u64) -> (v: JsonValue)
    ensures
        model(v) == JsonModel::Number(NumberRepr::PosInt(n)),
{
    JsonValue::Number(
        JsonNumber {
            repr: NumberRepr::PosInt(n),
            approx: Dyadic { mantissa: if n <= 0x7fff_ffff_ffff_ffff { n as i64 } else { 0 }, exponent: 0 },
            text: crate::text::decimal_string(n),
            json_text: crate::text::decimal_string(n),
        },
    )
}

} // verus!
