//! The JSON values the remote API exchanges, modelled as a plain tree, with
//! a verified compact serializer.  Parsing the wire text into this tree is
//! the one step delegated to an outside parser.

use vstd::prelude::*;
use crate::num::{dec_str_int, i64_to_dec};
use crate::scan::{first_idx, lemma_first_idx_is, lemma_first_idx_none};

verus! {

broadcast use vstd::std_specs::vec::group_vec_axioms, vstd::seq::group_seq_axioms;

/// A JSON value.  A number with an exact `i64` value is held as `Int`; any
/// other number is held as `NumText`, its decimal rendering kept verbatim.
/// Object members keep the order in which the parser yields them.
pub enum JsonValue {
    Null,
    Bool(bool),
    Int(i64),
    NumText(String),
    Str(String),
    Array(Vec<JsonValue>),
    Object(Vec<(String, JsonValue)>),
}

/// How one character is written inside a JSON string literal.
pub open spec fn escaped_char(c: char) -> Seq<char> {
    if c == '"' {
        "\\\""@
    } else if c == '\\' {
        "\\\\"@
    } else if c == '\u{8}' {
        "\\b"@
    } else if c == '\t' {
        "\\t"@
    } else if c == '\n' {
        "\\n"@
    } else if c == '\u{c}' {
        "\\f"@
    } else if c == '\r' {
        "\\r"@
    } else if (c as u32) < 0x20 {
        "\\u00"@ + seq![hex_digit_char(c as u32 as int / 16), hex_digit_char(c as u32 as int % 16)]
    } else {
        seq![c]
    }
}

/// The lower-case hex digit for `d`.
pub open spec fn hex_digit_char(d: int) -> char {
    if d == 0 {
        '0'
    } else if d == 1 {
        '1'
    } else if d == 2 {
        '2'
    } else if d == 3 {
        '3'
    } else if d == 4 {
        '4'
    } else if d == 5 {
        '5'
    } else if d == 6 {
        '6'
    } else if d == 7 {
        '7'
    } else if d == 8 {
        '8'
    } else if d == 9 {
        '9'
    } else if d == 10 {
        'a'
    } else if d == 11 {
        'b'
    } else if d == 12 {
        'c'
    } else if d == 13 {
        'd'
    } else if d == 14 {
        'e'
    } else {
        'f'
    }
}

/// The body of a JSON string literal for `s`.
pub open spec fn json_escaped(s: Seq<char>) -> Seq<char>
    decreases s.len(),
{
    if s.len() == 0 {
        Seq::empty()
    } else {
        json_escaped(s.drop_last()) + escaped_char(s.last())
    }
}

/// The JSON string literal for `s`, quotes included.
pub open spec fn json_str_text(s: Seq<char>) -> Seq<char> {
    "\""@ + json_escaped(s) + "\""@
}

/// The compact JSON text of `v`, written as an outside serializer writes it.
pub open spec fn json_text_of(v: JsonValue) -> Seq<char>
    decreases v,
{
    match v {
        JsonValue::Null => "null"@,
        JsonValue::Bool(b) => if b {
            "true"@
        } else {
            "false"@
        },
        JsonValue::Int(i) => dec_str_int(i as int),
        JsonValue::NumText(s) => s@,
        JsonValue::Str(s) => json_str_text(s@),
        JsonValue::Array(items) => "["@ + json_items_text(items@, 0) + "]"@,
        JsonValue::Object(fields) => "{"@ + json_fields_text(fields@, 0) + "}"@,
    }
}

/// The comma-separated texts of `items[i..]`.
pub open spec fn json_items_text(items: Seq<JsonValue>, i: int) -> Seq<char>
    decreases items, items.len() - i,
{
    if i < 0 || i >= items.len() {
        Seq::empty()
    } else {
        let sep: Seq<char> = if i + 1 < items.len() {
            ","@
        } else {
            Seq::empty()
        };
        json_text_of(items[i]) + sep + json_items_text(items, i + 1)
    }
}

/// The comma-separated `"key":value` texts of `fields[i..]`.
pub open spec fn json_fields_text(fields: Seq<(String, JsonValue)>, i: int) -> Seq<char>
    decreases fields, fields.len() - i,
{
    if i < 0 || i >= fields.len() {
        Seq::empty()
    } else {
        let sep: Seq<char> = if i + 1 < fields.len() {
            ","@
        } else {
            Seq::empty()
        };
        json_str_text(fields[i].0@) + ":"@ + json_text_of(fields[i].1) + sep + json_fields_text(
            fields,
            i + 1,
        )
    }
}

/// Relies on `String::push`: appends exactly the given character.
#[verifier::external_body]
fn push_char(s: &mut String, c: char)
    ensures
        final(s)@ == old(s)@.push(c),
{
    s.push(c);
}

/// The one-character string for hex digit value `d`.
fn hex_val_str(d: u32) -> (r: &'static str)
    requires
        d < 16,
    ensures
        r@ == seq![hex_digit_char(d as int)],
{
    proof {
        reveal_strlit("0");
        reveal_strlit("1");
        reveal_strlit("2");
        reveal_strlit("3");
        reveal_strlit("4");
        reveal_strlit("5");
        reveal_strlit("6");
        reveal_strlit("7");
        reveal_strlit("8");
        reveal_strlit("9");
        reveal_strlit("a");
        reveal_strlit("b");
        reveal_strlit("c");
        reveal_strlit("d");
        reveal_strlit("e");
        reveal_strlit("f");
    }
    match d {
        0 => "0",
        1 => "1",
        2 => "2",
        3 => "3",
        4 => "4",
        5 => "5",
        6 => "6",
        7 => "7",
        8 => "8",
        9 => "9",
        10 => "a",
        11 => "b",
        12 => "c",
        13 => "d",
        14 => "e",
        _ => "f",
    }
}

/// Escapes the body of a JSON string literal.
fn json_escaped_exec(s: &str) -> (r: String)
    ensures
        r@ == json_escaped(s@),
{
    let n = s.unicode_len();
    let mut out = String::new();
    let mut i: usize = 0;
    while i < n
        invariant
            0 <= i <= n,
            n == s@.len(),
            out@ == json_escaped(s@.subrange(0, i as int)),
        decreases n - i,
    {
        let c = s.get_char(i);
        let u = c as u32;
        proof {
            let p = s@.subrange(0, i + 1);
            assert(p.drop_last() =~= s@.subrange(0, i as int));
            assert(p.last() == s@[i as int]);
        }
        if c == '"' {
            out = out.concat("\\\"");
        } else if c == '\\' {
            out = out.concat("\\\\");
        } else if u == 0x8 {
            out = out.concat("\\b");
        } else if u == 0x9 {
            out = out.concat("\\t");
        } else if u == 0xA {
            out = out.concat("\\n");
        } else if u == 0xC {
            out = out.concat("\\f");
        } else if u == 0xD {
            out = out.concat("\\r");
        } else if u < 0x20 {
            out = out.concat("\\u00").concat(hex_val_str(u / 16)).concat(hex_val_str(u % 16));
            proof {
                assert(escaped_char(c) =~= "\\u00"@ + seq![
                    hex_digit_char(u as int / 16),
                    hex_digit_char(u as int % 16),
                ]);
            }
        } else {
            push_char(&mut out, c);
            proof {
                assert(out@ =~= json_escaped(s@.subrange(0, i as int)) + escaped_char(c));
            }
        }
        i = i + 1;
    }
    proof {
        assert(s@.subrange(0, n as int) =~= s@);
    }
    out
}

/// Writes the JSON string literal for `s`.
pub fn json_str_exec(s: &str) -> (r: String)
    ensures
        r@ == json_str_text(s@),
{
    String::from_str("\"").concat(json_escaped_exec(s).as_str()).concat("\"")
}

/// Writes the compact JSON text of `v`, exactly as [`json_text_of`] says.
#[verifier::loop_isolation(false)]
pub fn to_json_text(v: &JsonValue) -> (r: String)
    ensures
        r@ == json_text_of(*v),
    decreases *v,
{
    match v {
        JsonValue::Null => String::from_str("null"),
        JsonValue::Bool(b) => {
            if *b {
                String::from_str("true")
            } else {
                String::from_str("false")
            }
        },
        JsonValue::Int(i) => i64_to_dec(*i),
        JsonValue::NumText(s) => s.clone(),
        JsonValue::Str(s) => json_str_exec(s.as_str()),
        JsonValue::Array(items) => {
            let n = items.len();
            let mut out = String::from_str("[");
            let ghost mut done: Seq<char> = Seq::empty();
            proof {
                assert(Seq::empty() + json_items_text(items@, 0) =~= json_items_text(items@, 0));
                assert(out@ =~= "["@ + done);
            }
            let mut i: usize = 0;
            while i < n
                invariant
                    0 <= i <= n,
                    n == items@.len(),
                    out@ == "["@ + done,
                    done + json_items_text(items@, i as int) == json_items_text(items@, 0),
                decreases n - i,
            {
                proof {
                    lemma_json_items_split(items@, i as int);
                }
                let piece = to_json_text(&items[i]);
                out = out.concat(piece.as_str());
                let ghost sep: Seq<char> = if i + 1 < n {
                    ","@
                } else {
                    Seq::empty()
                };
                if i + 1 < n {
                    out = out.concat(",");
                }
                proof {
                    let old_done = done;
                    done = done + json_text_of(items@[i as int]) + sep;
                    assert(out@ =~= "["@ + done);
                    assert(done + json_items_text(items@, i + 1) =~= old_done + json_items_text(
                        items@,
                        i as int,
                    ));
                }
                i = i + 1;
            }
            proof {
                assert(done =~= done + json_items_text(items@, n as int));
            }
            out.concat("]")
        },
        JsonValue::Object(fields) => {
            let n = fields.len();
            let mut out = String::from_str("{");
            let ghost mut done: Seq<char> = Seq::empty();
            proof {
                assert(Seq::empty() + json_fields_text(fields@, 0) =~= json_fields_text(
                    fields@,
                    0,
                ));
                assert(out@ =~= "{"@ + done);
            }
            let mut i: usize = 0;
            while i < n
                invariant
                    0 <= i <= n,
                    n == fields@.len(),
                    out@ == "{"@ + done,
                    done + json_fields_text(fields@, i as int) == json_fields_text(fields@, 0),
                decreases n - i,
            {
                proof {
                    lemma_json_fields_split(fields@, i as int);
                }
                let key = json_str_exec(fields[i].0.as_str());
                let piece = to_json_text(&fields[i].1);
                out = out.concat(key.as_str()).concat(":").concat(piece.as_str());
                let ghost sep: Seq<char> = if i + 1 < n {
                    ","@
                } else {
                    Seq::empty()
                };
                if i + 1 < n {
                    out = out.concat(",");
                }
                proof {
                    let old_done = done;
                    done = done + json_str_text(fields@[i as int].0@) + ":"@ + json_text_of(
                        fields@[i as int].1,
                    ) + sep;
                    assert(out@ =~= "{"@ + done);
                    assert(done + json_fields_text(fields@, i + 1) =~= old_done + json_fields_text(
                        fields@,
                        i as int,
                    ));
                }
                i = i + 1;
            }
            proof {
                assert(done =~= done + json_fields_text(fields@, n as int));
            }
            out.concat("}")
        },
    }
}

/// The text of `items[i..]` splits into the text of `items[i]`, its
/// separator, and the text of the rest.
proof fn lemma_json_items_split(items: Seq<JsonValue>, i: int)
    requires
        0 <= i < items.len(),
    ensures
        json_items_text(items, i) == json_text_of(items[i]) + (if i + 1 < items.len() {
            ","@
        } else {
            Seq::<char>::empty()
        }) + json_items_text(items, i + 1),
        json_items_text(items, i + 1).len() <= json_items_text(items, i).len(),
{
}

/// Mirror of [`lemma_json_items_split`] for object members.
proof fn lemma_json_fields_split(fields: Seq<(String, JsonValue)>, i: int)
    requires
        0 <= i < fields.len(),
    ensures
        json_fields_text(fields, i) == json_str_text(fields[i].0@) + ":"@ + json_text_of(
            fields[i].1,
        ) + (if i + 1 < fields.len() {
            ","@
        } else {
            Seq::<char>::empty()
        }) + json_fields_text(fields, i + 1),
        json_fields_text(fields, i + 1).len() <= json_fields_text(fields, i).len(),
{
}

/// Matches an object member by its exact key.
pub open spec fn json_key_pred(key: Seq<char>) -> spec_fn((String, JsonValue)) -> bool {
    |f: (String, JsonValue)| f.0@ == key
}

/// The value of the first object member named exactly `key`.
pub open spec fn obj_lookup(fields: Seq<(String, JsonValue)>, key: Seq<char>) -> Option<JsonValue> {
    match first_idx(fields, json_key_pred(key)) {
        Some(i) => Some(fields[i].1),
        None => None,
    }
}

/// Finds the first object member named exactly `key`, by scan.
pub fn json_obj_get<'a>(fields: &'a Vec<(String, JsonValue)>, key: &str) -> (r: Option<
    &'a JsonValue,
>)
    ensures
        match obj_lookup(fields@, key@) {
            Some(v) => r matches Some(x) && *x == v,
            None => r is None,
        },
{
    let n = fields.len();
    let mut i: usize = 0;
    while i < n
        invariant
            0 <= i <= n,
            n == fields@.len(),
            forall|j: int| 0 <= j < i ==> !(json_key_pred(key@)(#[trigger] fields@[j])),
        decreases n - i,
    {
        if crate::text::str_eq(fields[i].0.as_str(), key) {
            proof {
                lemma_first_idx_is(fields@, json_key_pred(key@), i as int);
            }
            return Some(&fields[i].1);
        }
        i = i + 1;
    }
    proof {
        lemma_first_idx_none(fields@, json_key_pred(key@));
    }
    None
}

/// What the outside parser yields on a given text: parsing is a function of
/// the text alone.
pub uninterp spec fn json_parse_of(s: Seq<char>) -> Option<JsonValue>;

/// The outside parser's value type, declared so that the conversion below
/// may name it; the library never reads it directly.
#[verifier::external_type_specification]
#[verifier::external_body]
pub struct ExValue(serde_json::Value);

/// Rebuilds an outside parser's value as the library's own tree, one arm per
/// variant: a number with an exact `i64` value becomes `Int`, any other
/// number keeps its rendering as `NumText`.
#[verifier::external_body]
fn of_value(v: serde_json::Value) -> JsonValue {
    match v {
        serde_json::Value::Null => JsonValue::Null,
        serde_json::Value::Bool(b) => JsonValue::Bool(b),
        serde_json::Value::Number(n) => match n.as_i64() {
            Some(i) => JsonValue::Int(i),
            None => JsonValue::NumText(n.to_string()),
        },
        serde_json::Value::String(s) => JsonValue::Str(s),
        serde_json::Value::Array(a) => JsonValue::Array(a.into_iter().map(of_value).collect()),
        serde_json::Value::Object(m) => JsonValue::Object(
            m.into_iter().map(|p| (p.0, of_value(p.1))).collect(),
        ),
    }
}

/// Relies on `serde_json::from_str`: whether a text parses, and to which
/// value, depends on the text alone; object members are yielded in the
/// parser's key order, duplicate keys collapsed to the last.
#[verifier::external_body]
pub(crate) fn json_parse(text: &str) -> (r: Option<JsonValue>)
    ensures
        r == json_parse_of(text@),
{
    match serde_json::from_str::<serde_json::Value>(text) {
        Ok(v) => Some(of_value(v)),
        Err(_) => None,
    }
}

} // verus!
