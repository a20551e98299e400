use crate::json::{lemma_model_parts, JsonValue};
use crate::keyed::{lemma_flatten_all, lemma_flatten_step};
use crate::text::{push_char, push_str};
use vstd::prelude::*;

verus! {

/// A lower-case hexadecimal digit.
pub open spec fn hex_char(d: nat) -> char {
    if d < 10 {
        ((d + 48) as u8) as char
    } else {
        ((d + 87) as u8) as char
    }
}

/// How one character appears inside a JSON string: quote, backslash and control
/// characters are escaped (`\b`, `\t`, `\n`, `\f`, `\r`, else `\u00XX`).
pub open spec fn escape_json(c: char) -> Seq<char> {
    let v = c as u32;
    if c == '"' {
        seq!['\\', '"']
    } else if c == '\\' {
        seq!['\\', '\\']
    } else if v == 8 {
        seq!['\\', 'b']
    } else if v == 9 {
        seq!['\\', 't']
    } else if v == 10 {
        seq!['\\', 'n']
    } else if v == 12 {
        seq!['\\', 'f']
    } else if v == 13 {
        seq!['\\', 'r']
    } else if v < 32 {
        seq!['\\', 'u', '0', '0', hex_char((v / 16) as nat), hex_char((v % 16) as nat)]
    } else {
        seq![c]
    }
}

/// The escaped characters of a text.
pub open spec fn escaped_parts(s: Seq<char>) -> Seq<Seq<char>> {
    Seq::new(s.len(), |i: int| escape_json(s[i]))
}

/// A text as a JSON string literal.
pub open spec fn quoted(s: Seq<char>) -> Seq<char> {
    seq!['"'] + escaped_parts(s).flatten() + seq!['"']
}

/// Element `i` of an array value as it appears in JSON: after a comma unless it is the
/// first.
pub open spec fn item_text(v: JsonValue, i: int) -> Seq<char>
    decreases v, 1nat,
{
    match v {
        JsonValue::Array(xs) => if 0 <= i < xs@.len() {
            (if i == 0 {
                Seq::empty()
            } else {
                seq![',']
            }) + render(xs@[i])
        } else {
            Seq::empty()
        },
        _ => Seq::empty(),
    }
}

/// Member `i` of an object value as it appears in JSON.
pub open spec fn member_text(v: JsonValue, i: int) -> Seq<char>
    decreases v, 1nat,
{
    match v {
        JsonValue::Object(ms) => if 0 <= i < ms@.len() {
            (if i == 0 {
                Seq::empty()
            } else {
                seq![',']
            }) + quoted(ms@[i].0@) + seq![':'] + render(ms@[i].1)
        } else {
            Seq::empty()
        },
        _ => Seq::empty(),
    }
}

/// The elements of an array value in JSON.
pub open spec fn item_texts(v: JsonValue) -> Seq<Seq<char>>
    decreases v, 2nat,
{
    match v {
        JsonValue::Array(xs) => Seq::new(xs@.len(), |i: int| item_text(v, i)),
        _ => Seq::empty(),
    }
}

/// The members of an object value in JSON.
pub open spec fn member_texts(v: JsonValue) -> Seq<Seq<char>>
    decreases v, 2nat,
{
    match v {
        JsonValue::Object(ms) => Seq::new(ms@.len(), |i: int| member_text(v, i)),
        _ => Seq::empty(),
    }
}

/// A value as compact JSON text: no whitespace, members in stored order, numbers as
/// JSON renders them.
pub open spec fn render(v: JsonValue) -> Seq<char>
    decreases v, 3nat,
{
    match v {
        JsonValue::Null => "null"@,
        JsonValue::Bool(b) => if b {
            "true"@
        } else {
            "false"@
        },
        JsonValue::Number(n) => n.json_text@,
        JsonValue::String(s) => quoted(s@),
        JsonValue::Array(_) => seq!['['] + item_texts(v).flatten() + seq![']'],
        JsonValue::Object(_) => seq!['{'] + member_texts(v).flatten() + seq!['}'],
    }
}

fn push_hex(out: &mut String, d: u32)
    requires
        d < 16,
    ensures
        final(out)@ == old(out)@.push(hex_char(d as nat)),
{
    if d < 10 {
        push_char(out, ((d + 48) as u8) as char);
    } else {
        push_char(out, ((d + 87) as u8) as char);
    }
}

/// Appends `s` as a JSON string literal.
pub fn push_quoted(out: &mut String, s: &str)
    ensures
        final(out)@ == old(out)@ + quoted(s@),
{
    let ghost start = out@;
    let chars = crate::text::chars_of(s);
    let ghost parts = escaped_parts(s@);
    push_char(out, '"');
    let mut i: usize = 0;
    while i < chars.len()
        invariant
            chars@ == s@,
            parts == escaped_parts(s@),
            i <= chars@.len(),
            out@ == start + seq!['"'] + parts.take(i as int).flatten(),
        decreases chars@.len() - i,
    {
        proof {
            lemma_flatten_step(parts, i as int);
        }
        let c = chars[i];
        let v = c as u32;
        let ghost before = out@;
        if c == '"' {
            push_char(out, '\\');
            push_char(out, '"');
        } else if c == '\\' {
            push_char(out, '\\');
            push_char(out, '\\');
        } else if v == 8 {
            push_char(out, '\\');
            push_char(out, 'b');
        } else if v == 9 {
            push_char(out, '\\');
            push_char(out, 't');
        } else if v == 10 {
            push_char(out, '\\');
            push_char(out, 'n');
        } else if v == 12 {
            push_char(out, '\\');
            push_char(out, 'f');
        } else if v == 13 {
            push_char(out, '\\');
            push_char(out, 'r');
        } else if v < 32 {
            push_char(out, '\\');
            push_char(out, 'u');
            push_char(out, '0');
            push_char(out, '0');
            push_hex(out, v / 16);
            push_hex(out, v % 16);
        } else {
            push_char(out, c);
        }
        assert(out@ =~= before + escape_json(c));
        i = i + 1;
    }
    proof {
        lemma_flatten_all(parts);
    }
    push_char(out, '"');
    assert(out@ =~= start + quoted(s@));
}

/// Appends `v` as compact JSON text (see `render`).
pub fn push_json(out: &mut String, v: &JsonValue)
    ensures
        final(out)@ == old(out)@ + render(*v),
    decreases v,
{
    let ghost start = out@;
    match v {
        JsonValue::Null => {
            push_str(out, "null");
            proof {
                reveal_strlit("null");
            }
        },
        JsonValue::Bool(b) => {
            if *b {
                push_str(out, "true");
            } else {
                push_str(out, "false");
            }
        },
        JsonValue::Number(n) => push_str(out, n.json_text.as_str()),
        JsonValue::String(s) => push_quoted(out, s.as_str()),
        JsonValue::Array(xs) => {
            let ghost parts = item_texts(*v);
            push_char(out, '[');
            let mut i: usize = 0;
            while i < xs.len()
                invariant
                    *v == JsonValue::Array(*xs),
                    parts == item_texts(*v),
                    i <= xs@.len(),
                    out@ == start + seq!['['] + parts.take(i as int).flatten(),
                decreases xs@.len() - i,
            {
                proof {
                    lemma_flatten_step(parts, i as int);
                    vstd::std_specs::vec::axiom_vec_index_decreases(*xs, i as int);
                    assert(decreases_to!(*v => (*v)->Array_0));
                    assert(decreases_to!(*v => xs[i as int]));
                }
                let ghost before = out@;
                if i > 0 {
                    push_char(out, ',');
                }
                push_json(out, &xs[i]);
                assert(out@ =~= before + item_text(*v, i as int));
                i = i + 1;
            }
            proof {
                lemma_flatten_all(parts);
            }
            push_char(out, ']');
        },
        JsonValue::Object(ms) => {
            let ghost parts = member_texts(*v);
            push_char(out, '{');
            let mut i: usize = 0;
            while i < ms.len()
                invariant
                    *v == JsonValue::Object(*ms),
                    parts == member_texts(*v),
                    i <= ms@.len(),
                    out@ == start + seq!['{'] + parts.take(i as int).flatten(),
                decreases ms@.len() - i,
            {
                proof {
                    lemma_flatten_step(parts, i as int);
                    vstd::std_specs::vec::axiom_vec_index_decreases(*ms, i as int);
                    assert(decreases_to!(*v => (*v)->Object_0));
                    assert(decreases_to!(*v => ms[i as int]));
                    assert(decreases_to!(*v => ms[i as int].1));
                }
                let ghost before = out@;
                if i > 0 {
                    push_char(out, ',');
                }
                push_quoted(out, ms[i].0.as_str());
                push_char(out, ':');
                push_json(out, &ms[i].1);
                assert(out@ =~= before + member_text(*v, i as int));
                i = i + 1;
            }
            proof {
                lemma_flatten_all(parts);
            }
            push_char(out, '}');
        },
    }
    assert(out@ =~= start + render(*v));
}

} // verus!
