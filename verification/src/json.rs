//! The JSON model of this library.
//!
//! Responses from the completion endpoint arrive as JSON text.  Parsing is
//! delegated to `serde_json` behind a trusted wrapper; the parsed document is
//! carried in the library's own [`Json`] type, so that the lookup of
//! `choices[0].text` is verified code.  Outgoing request bodies are built as
//! text with a verified escaper.

use vstd::prelude::*;
use crate::text::str_eq;

verus! {

/// A JSON document as this library models it.  The numeric payload of a
/// number is never read by this client, so it is not carried.
#[derive(Debug, PartialEq, Eq)]
pub enum Json {
    Null,
    Bool(bool),
    Num,
    Text(String),
    Arr(Vec<Json>),
    Obj(Vec<(String, Json)>),
}

/// The value under `key` among the fields of a JSON object, if any.
/// Parsed objects hold each key at most once, so the first match is the one.
pub open spec fn obj_lookup(fields: Seq<(String, Json)>, key: Seq<char>) -> Option<Json>
    decreases fields.len(),
{
    if fields.len() == 0 {
        None
    } else if fields[0].0@ == key {
        Some(fields[0].1)
    } else {
        obj_lookup(fields.drop_first(), key)
    }
}

/// The text of the first choice of a completion response: the string under
/// `choices[0].text`, if the document has that exact shape.
pub open spec fn choice_text_of(j: Json) -> Option<Seq<char>> {
    match j {
        Json::Obj(fields) => match obj_lookup(fields@, "choices"@) {
            Some(c) => match c {
                Json::Arr(choices) => if choices@.len() > 0 {
                    match choices@[0] {
                        Json::Obj(cf) => match obj_lookup(cf@, "text"@) {
                            Some(t) => match t {
                                Json::Text(s) => Some(s@),
                                _ => None,
                            },
                            None => None,
                        },
                        _ => None,
                    }
                } else {
                    None
                },
                _ => None,
            },
            None => None,
        },
        _ => None,
    }
}

/// What `serde_json` parses the text into, under this library's model:
/// `Some` of the document exactly when the text is valid JSON.
pub uninterp spec fn json_of(s: Seq<char>) -> Option<Json>;

#[verifier::external_type_specification]
#[verifier::external_body]
pub struct ExValue(serde_json::Value);

/// Carries a parsed `serde_json` value into this library's model, variant
/// for variant.  The numeric payload is not read by this client.
#[verifier::external_body]
fn to_model(v: serde_json::Value) -> Json {
    match v {
        serde_json::Value::Null => Json::Null,
        serde_json::Value::Bool(b) => Json::Bool(b),
        serde_json::Value::Number(_) => Json::Num,
        serde_json::Value::String(s) => Json::Text(s),
        serde_json::Value::Array(a) => Json::Arr(a.into_iter().map(to_model).collect()),
        serde_json::Value::Object(m) => Json::Obj(
            m.into_iter().map(|(k, w)| (k, to_model(w))).collect(),
        ),
    }
}

/// Relies on `serde_json::from_str`: it parses the text as one JSON
/// document, deterministically, and errs exactly when the text is not
/// valid JSON.
#[verifier::external_body]
pub fn parse_json(s: &str) -> (r: Result<Json, String>)
    ensures
        match r {
            Ok(j) => json_of(s@) == Some(j),
            Err(_) => json_of(s@) is None,
        },
{
    match serde_json::from_str::<serde_json::Value>(s) {
        Ok(v) => Ok(to_model(v)),
        Err(e) => Err(e.to_string()),
    }
}

/// The value under `key` among `fields`, if any.
pub fn obj_get<'a>(fields: &'a Vec<(String, Json)>, key: &str) -> (r: Option<&'a Json>)
    ensures
        match r {
            Some(v) => obj_lookup(fields@, key@) == Some(*v),
            None => obj_lookup(fields@, key@) is None,
        },
{
    let n = fields.len();
    let mut i: usize = 0;
    proof {
        assert(fields@.skip(0) =~= fields@);
    }
    while i < n
        invariant
            n == fields@.len(),
            0 <= i <= n,
            obj_lookup(fields@.skip(i as int), key@) == obj_lookup(fields@, key@),
        decreases n - i,
    {
        let pair = &fields[i];
        proof {
            assert(fields@.skip(i as int)[0] == fields@[i as int]);
        }
        if str_eq(pair.0.as_str(), key) {
            return Some(&pair.1);
        }
        proof {
            assert(fields@.skip(i as int).drop_first() =~= fields@.skip(i + 1));
        }
        i = i + 1;
    }
    proof {
        assert(fields@.skip(n as int) =~= Seq::<(String, Json)>::empty());
    }
    None
}

/// The string under `choices[0].text`, if the document has that shape.
pub fn extract_choice_text<'a>(j: &'a Json) -> (r: Option<&'a str>)
    ensures
        match r {
            Some(s) => choice_text_of(*j) == Some(s@),
            None => choice_text_of(*j) is None,
        },
{
    let fields = match j {
        Json::Obj(fields) => fields,
        _ => { return None; },
    };
    let choices_value = match obj_get(fields, "choices") {
        Some(v) => v,
        None => { return None; },
    };
    let choices = match choices_value {
        Json::Arr(choices) => choices,
        _ => { return None; },
    };
    if choices.len() == 0 {
        return None;
    }
    let first = &choices[0];
    let choice_fields = match first {
        Json::Obj(cf) => cf,
        _ => { return None; },
    };
    let text_value = match obj_get(choice_fields, "text") {
        Some(t) => t,
        None => { return None; },
    };
    match text_value {
        Json::Text(s) => Some(s.as_str()),
        _ => None,
    }
}

/// The lower-case hexadecimal digit character for `d`, which lies below 16.
pub open spec fn hex_digit(d: int) -> char {
    if d < 10 {
        crate::text::digit_char(d)
    } else if d == 10 {
        'a'
    } else if d == 11 {
        'b'
    } else if d == 12 {
        'c'
    } else if d == 13 {
        'd'
    } else if d == 14 {
        'e'
    } else {
        'f'
    }
}

/// How one character stands inside a JSON string literal: quotes,
/// backslashes and control characters are escaped, all else passes through.
pub open spec fn json_escape_char(c: char) -> Seq<char> {
    let u = c as u32;
    if u == 0x22 {
        seq!['\\', '"']
    } else if u == 0x5c {
        seq!['\\', '\\']
    } else if u == 0x08 {
        seq!['\\', 'b']
    } else if u == 0x09 {
        seq!['\\', 't']
    } else if u == 0x0a {
        seq!['\\', 'n']
    } else if u == 0x0c {
        seq!['\\', 'f']
    } else if u == 0x0d {
        seq!['\\', 'r']
    } else if u < 0x20 {
        seq!['\\', 'u', '0', '0', hex_digit(u as int / 16), hex_digit(u as int % 16)]
    } else {
        seq![c]
    }
}

/// The body of a JSON string literal holding exactly the text `s`.
pub open spec fn json_escape(s: Seq<char>) -> Seq<char>
    decreases s.len(),
{
    if s.len() == 0 {
        Seq::empty()
    } else {
        json_escape_char(s[0]) + json_escape(s.drop_first())
    }
}

proof fn lemma_json_escape_push(t: Seq<char>, c: char)
    ensures
        json_escape(t.push(c)) == json_escape(t) + json_escape_char(c),
    decreases t.len(),
{
    if t.len() == 0 {
        assert(t.push(c)[0] == c);
        assert(t.push(c).drop_first() =~= Seq::<char>::empty());
        assert(json_escape(t.push(c)) == json_escape_char(c) + json_escape(
            Seq::<char>::empty(),
        ));
        assert(json_escape_char(c) + Seq::<char>::empty() =~= json_escape_char(c));
        assert(json_escape(t) + json_escape_char(c) =~= json_escape_char(c));
    } else {
        lemma_json_escape_push(t.drop_first(), c);
        assert(t.push(c)[0] == t[0]);
        assert(t.push(c).drop_first() =~= t.drop_first().push(c));
        assert(json_escape(t.push(c)) == json_escape_char(t[0]) + json_escape(
            t.drop_first().push(c),
        ));
        assert(json_escape_char(t[0]) + (json_escape(t.drop_first()) + json_escape_char(c)) =~= (
        json_escape_char(t[0]) + json_escape(t.drop_first())) + json_escape_char(c));
    }
}

spec fn esc_is_raw(c: char) -> bool {
    let u = c as u32;
    u != 0x22 && u != 0x5c && u >= 0x20
}

spec fn esc_is_short(c: char) -> bool {
    let u = c as u32;
    u == 0x22 || u == 0x5c || u == 0x08 || u == 0x09 || u == 0x0a || u == 0x0c || u == 0x0d
}

spec fn esc_is_hex(c: char) -> bool {
    !esc_is_raw(c) && !esc_is_short(c)
}

spec fn short_letter(c: char) -> char {
    let u = c as u32;
    if u == 0x22 {
        '"'
    } else if u == 0x5c {
        '\\'
    } else if u == 0x08 {
        'b'
    } else if u == 0x09 {
        't'
    } else if u == 0x0a {
        'n'
    } else if u == 0x0c {
        'f'
    } else {
        'r'
    }
}

proof fn lemma_hex_digit_injective(x: int, y: int)
    requires
        0 <= x < 16,
        0 <= y < 16,
        hex_digit(x) == hex_digit(y),
    ensures
        x == y,
{
}

proof fn lemma_esc_unit(a: char, b: char, ra: Seq<char>, rb: Seq<char>)
    requires
        json_escape_char(a) + ra == json_escape_char(b) + rb,
    ensures
        a == b,
        ra == rb,
{
    let ea = json_escape_char(a);
    let eb = json_escape_char(b);
    let s = ea + ra;
    if esc_is_raw(a) && esc_is_raw(b) {
        assert(s[0] == a && s[0] == b);
    } else if esc_is_raw(a) && !esc_is_raw(b) {
        assert(s[0] == a && s[0] == '\\');
        assert(a as u32 == 0x5c);
    } else if !esc_is_raw(a) && esc_is_raw(b) {
        assert(s[0] == b && s[0] == '\\');
        assert(b as u32 == 0x5c);
    } else if esc_is_short(a) && esc_is_short(b) {
        assert(s[1] == short_letter(a) && s[1] == short_letter(b));
    } else if esc_is_short(a) && esc_is_hex(b) {
        assert(s[1] == short_letter(a) && s[1] == 'u');
    } else if esc_is_hex(a) && esc_is_short(b) {
        assert(s[1] == 'u' && s[1] == short_letter(b));
    } else {
        let ua = a as u32 as int;
        let ub = b as u32 as int;
        assert(s[4] == hex_digit(ua / 16) && s[4] == hex_digit(ub / 16));
        assert(s[5] == hex_digit(ua % 16) && s[5] == hex_digit(ub % 16));
        lemma_hex_digit_injective(ua / 16, ub / 16);
        lemma_hex_digit_injective(ua % 16, ub % 16);
        assert(ua == ub);
    }
    assert(ea == eb);
    assert(ra.len() == rb.len());
    assert forall|i: int| 0 <= i < ra.len() implies ra[i] == rb[i] by {
        assert(ra[i] == s[ea.len() + i]);
        assert(rb[i] == (eb + rb)[eb.len() + i]);
    }
    assert(ra =~= rb);
}

/// Escaping loses nothing: two texts with the same escaped form are the
/// same text.
pub proof fn lemma_json_escape_injective(a: Seq<char>, b: Seq<char>)
    requires
        json_escape(a) == json_escape(b),
    ensures
        a == b,
    decreases a.len(),
{
    if a.len() == 0 {
        if b.len() > 0 {
            assert(json_escape(b).len() >= json_escape_char(b[0]).len());
        }
        assert(a =~= b);
    } else if b.len() == 0 {
        assert(json_escape(a).len() >= json_escape_char(a[0]).len());
        assert(a =~= b);
    } else {
        lemma_esc_unit(a[0], b[0], json_escape(a.drop_first()), json_escape(b.drop_first()));
        lemma_json_escape_injective(a.drop_first(), b.drop_first());
        assert forall|i: int| 0 <= i < a.len() implies a[i] == b[i] by {
            if i > 0 {
                assert(a[i] == a.drop_first()[i - 1]);
                assert(b[i] == b.drop_first()[i - 1]);
            }
        }
        assert(a =~= b);
    }
}

fn push_hex_digit(out: &mut String, d: u32)
    requires
        d < 16,
    ensures
        final(out)@ == old(out)@.push(hex_digit(d as int)),
{
    let c = if d < 10 {
        crate::text::digit_to_char(d as usize)
    } else if d == 10 {
        'a'
    } else if d == 11 {
        'b'
    } else if d == 12 {
        'c'
    } else if d == 13 {
        'd'
    } else if d == 14 {
        'e'
    } else {
        'f'
    };
    crate::text::push_char(out, c);
}

fn push_escaped(out: &mut String, c: char)
    ensures
        final(out)@ == old(out)@ + json_escape_char(c),
{
    let u = c as u32;
    if u == 0x22 {
        crate::text::push_char(out, '\\');
        crate::text::push_char(out, '"');
    } else if u == 0x5c {
        crate::text::push_char(out, '\\');
        crate::text::push_char(out, '\\');
    } else if u == 0x08 {
        crate::text::push_char(out, '\\');
        crate::text::push_char(out, 'b');
    } else if u == 0x09 {
        crate::text::push_char(out, '\\');
        crate::text::push_char(out, 't');
    } else if u == 0x0a {
        crate::text::push_char(out, '\\');
        crate::text::push_char(out, 'n');
    } else if u == 0x0c {
        crate::text::push_char(out, '\\');
        crate::text::push_char(out, 'f');
    } else if u == 0x0d {
        crate::text::push_char(out, '\\');
        crate::text::push_char(out, 'r');
    } else if u < 0x20 {
        crate::text::push_char(out, '\\');
        crate::text::push_char(out, 'u');
        crate::text::push_char(out, '0');
        crate::text::push_char(out, '0');
        push_hex_digit(out, u / 16);
        push_hex_digit(out, u % 16);
    } else {
        crate::text::push_char(out, c);
    }
    assert(out@ =~= old(out)@ + json_escape_char(c));
}

/// Renders `s` as it stands inside a JSON string literal.
pub fn escape_json_str(s: &str) -> (r: String)
    ensures
        r@ == json_escape(s@),
{
    let len = s.unicode_len();
    let mut out = String::new();
    let mut i: usize = 0;
    while i < len
        invariant
            len == s@.len(),
            0 <= i <= len,
            out@ == json_escape(s@.take(i as int)),
        decreases len - i,
    {
        let c = s.get_char(i);
        push_escaped(&mut out, c);
        proof {
            assert(s@.take(i + 1) =~= s@.take(i as int).push(s@[i as int]));
            lemma_json_escape_push(s@.take(i as int), s@[i as int]);
        }
        i = i + 1;
    }
    proof {
        assert(s@.take(len as int) =~= s@);
    }
    out
}

} // verus!
