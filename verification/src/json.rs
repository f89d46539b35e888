//! A JSON document model.
//!
//! The registry document and every package manifest are JSON texts.  Parsing
//! arbitrary JSON is delegated to `serde_json` behind a trusted wrapper whose
//! result is named by `json_parse_spec`; everything after the parse — member
//! lookup, document updates, and writing a document back out as text — is
//! verified code over the [`JsonValue`] model below.
//!
//! Numbers are carried as their decimal rendering, so the model holds plain
//! values only and an unrelated numeric member of the registry document
//! passes through unaltered.

use vstd::prelude::*;

use crate::chars::chars_to_string;

verus! {

/// A JSON document: the executable model.
pub enum JsonValue {
    Null,
    Bool(bool),
    /// A number, as the decimal text `serde_json` renders for it.
    Num(String),
    Str(String),
    Arr(Vec<JsonValue>),
    Obj(Vec<(String, JsonValue)>),
}

/// A JSON document: the mathematical model, over `Seq` alone.
pub enum JsonNode {
    Null,
    Bool(bool),
    Num(Seq<char>),
    Str(Seq<char>),
    Arr(Seq<JsonNode>),
    Obj(Seq<(Seq<char>, JsonNode)>),
}

/// The mathematical value of a `JsonValue`.
pub open spec fn json_view(v: JsonValue) -> JsonNode
    decreases v,
{
    match v {
        JsonValue::Null => JsonNode::Null,
        JsonValue::Bool(b) => JsonNode::Bool(b),
        JsonValue::Num(s) => JsonNode::Num(s@),
        JsonValue::Str(s) => JsonNode::Str(s@),
        JsonValue::Arr(items) => JsonNode::Arr(json_view_list(items@)),
        JsonValue::Obj(members) => JsonNode::Obj(json_view_members(members@)),
    }
}

/// The element-wise view of a sequence of JSON values.
pub open spec fn json_view_list(items: Seq<JsonValue>) -> Seq<JsonNode>
    decreases items,
{
    if items.len() == 0 {
        Seq::empty()
    } else {
        seq![json_view(items[0])] + json_view_list(items.skip(1))
    }
}

/// The member-wise view of a sequence of JSON object members.
pub open spec fn json_view_members(ms: Seq<(String, JsonValue)>) -> Seq<(Seq<char>, JsonNode)>
    decreases ms,
{
    if ms.len() == 0 {
        Seq::empty()
    } else {
        seq![(ms[0].0@, json_view(ms[0].1))] + json_view_members(ms.skip(1))
    }
}

/// `json_view_list` is index-wise `json_view`.
pub proof fn lemma_json_view_list(items: Seq<JsonValue>)
    ensures
        json_view_list(items).len() == items.len(),
        forall|i: int|
            0 <= i < items.len() ==> #[trigger] json_view_list(items)[i] == json_view(items[i]),
    decreases items.len(),
{
    if items.len() > 0 {
        lemma_json_view_list(items.skip(1));
        assert forall|i: int|
            0 <= i < items.len() implies #[trigger] json_view_list(items)[i] == json_view(
            items[i],
        ) by {
            if i > 0 {
                assert(json_view_list(items.skip(1))[i - 1] == json_view(items.skip(1)[i - 1]));
                assert(items.skip(1)[i - 1] == items[i]);
            }
        }
    }
}

/// `json_view_members` is index-wise the pair of the key view and the value view.
pub proof fn lemma_json_view_members(ms: Seq<(String, JsonValue)>)
    ensures
        json_view_members(ms).len() == ms.len(),
        forall|i: int|
            0 <= i < ms.len() ==> #[trigger] json_view_members(ms)[i] == (
                ms[i].0@,
                json_view(ms[i].1),
            ),
    decreases ms.len(),
{
    if ms.len() > 0 {
        lemma_json_view_members(ms.skip(1));
        assert forall|i: int|
            0 <= i < ms.len() implies #[trigger] json_view_members(ms)[i] == (
            ms[i].0@,
            json_view(ms[i].1),
        ) by {
            if i > 0 {
                assert(json_view_members(ms.skip(1))[i - 1] == (
                    ms.skip(1)[i - 1].0@,
                    json_view(ms.skip(1)[i - 1].1),
                ));
                assert(ms.skip(1)[i - 1] == ms[i]);
            }
        }
    }
}

/// `json_view_members` distributes over concatenation.
pub proof fn lemma_json_view_members_concat(a: Seq<(String, JsonValue)>, b: Seq<(String, JsonValue)>)
    ensures
        json_view_members(a + b) == json_view_members(a) + json_view_members(b),
    decreases a.len(),
{
    if a.len() == 0 {
        assert(a + b =~= b);
        assert(json_view_members(a) + json_view_members(b) =~= json_view_members(b));
    } else {
        assert((a + b)[0] == a[0]);
        assert((a + b).skip(1) =~= a.skip(1) + b);
        lemma_json_view_members_concat(a.skip(1), b);
        assert(seq![(a[0].0@, json_view(a[0].1))] + (json_view_members(a.skip(1))
            + json_view_members(b)) =~= (seq![(a[0].0@, json_view(a[0].1))] + json_view_members(
            a.skip(1),
        )) + json_view_members(b));
    }
}

impl View for JsonValue {
    type V = JsonNode;

    open spec fn view(&self) -> JsonNode {
        json_view(*self)
    }
}

/// The first member of `ms` named `key`, if any.
pub open spec fn obj_lookup(ms: Seq<(Seq<char>, JsonNode)>, key: Seq<char>) -> Option<JsonNode>
    decreases ms.len(),
{
    if ms.len() == 0 {
        Option::None
    } else if ms[0].0 == key {
        Option::Some(ms[0].1)
    } else {
        obj_lookup(ms.skip(1), key)
    }
}

/// Look a member up in an object's member list by name (first match).
pub fn members_get<'a>(members: &'a Vec<(String, JsonValue)>, key: &str) -> (r: Option<
    &'a JsonValue,
>)
    ensures
        match r {
            Option::Some(v) => obj_lookup(obj_view(members@), key@) == Option::Some(v@),
            Option::None => obj_lookup(obj_view(members@), key@) is None,
        },
{
    let mut i: usize = 0;
    while i < members.len()
        invariant
            i <= members@.len(),
            forall|k: int| 0 <= k < i ==> members@[k].0@ != key@,
        decreases members@.len() - i,
    {
        if crate::chars::str_eq(members[i].0.as_str(), key) {
            proof {
                lemma_json_view_members(members@);
                lemma_obj_lookup_hit(obj_view(members@), key@, i as int);
            }
            return Option::Some(&members[i].1);
        }
        i = i + 1;
    }
    proof {
        lemma_json_view_members(members@);
        lemma_obj_lookup_miss(obj_view(members@), key@);
    }
    Option::None
}

/// The member-list view of an executable member list.
pub open spec fn obj_view(ms: Seq<(String, JsonValue)>) -> Seq<(Seq<char>, JsonNode)> {
    json_view_members(ms)
}

/// The hexadecimal digit character for `d` in 0..16, lower case.
pub open spec fn hex_digit(d: int) -> char {
    if d < 10 {
        crate::chars::digit_char(d)
    } else if d == 10 {
        'a'
    } else if d == 11 {
        'b'
    } else if d == 12 {
        'c'
    } else if d == 13 {
        'd'
    } else if d == 14 {
        'e'
    } else {
        'f'
    }
}

/// How one character is written inside a JSON string literal: quotes and
/// backslashes get a backslash escape, control characters a `\u00XX` escape,
/// and everything else stands as itself.
pub open spec fn escape_char(c: char) -> Seq<char> {
    if c == '"' {
        seq!['\\', '"']
    } else if c == '\\' {
        seq!['\\', '\\']
    } else if (c as u32) < 0x20 {
        seq!['\\', 'u', '0', '0', hex_digit(c as u32 as int / 16), hex_digit(c as u32 as int % 16)]
    } else {
        seq![c]
    }
}

pub open spec fn escape_text(s: Seq<char>) -> Seq<char>
    decreases s.len(),
{
    if s.len() == 0 {
        Seq::empty()
    } else {
        escape_char(s[0]) + escape_text(s.skip(1))
    }
}

/// A JSON string literal: the escaped text between double quotes.
pub open spec fn quoted(s: Seq<char>) -> Seq<char> {
    seq!['"'] + escape_text(s) + seq!['"']
}

pub proof fn lemma_escape_text_concat(a: Seq<char>, b: Seq<char>)
    ensures
        escape_text(a + b) == escape_text(a) + escape_text(b),
    decreases a.len(),
{
    if a.len() == 0 {
        assert(a + b =~= b);
        assert(escape_text(a) + escape_text(b) =~= escape_text(b));
    } else {
        assert((a + b)[0] == a[0]);
        assert((a + b).skip(1) =~= a.skip(1) + b);
        lemma_escape_text_concat(a.skip(1), b);
        assert(escape_char(a[0]) + (escape_text(a.skip(1)) + escape_text(b)) =~= (escape_char(a[0])
            + escape_text(a.skip(1))) + escape_text(b));
    }
}

/// The compact text rendering of a JSON document.
pub open spec fn json_text(n: JsonNode) -> Seq<char>
    decreases n,
{
    match n {
        JsonNode::Null => seq!['n', 'u', 'l', 'l'],
        JsonNode::Bool(b) => if b {
            seq!['t', 'r', 'u', 'e']
        } else {
            seq!['f', 'a', 'l', 's', 'e']
        },
        JsonNode::Num(s) => s,
        JsonNode::Str(s) => quoted(s),
        JsonNode::Arr(items) => seq!['['] + json_text_list(items) + seq![']'],
        JsonNode::Obj(ms) => seq!['{'] + json_text_members(ms) + seq!['}'],
    }
}

/// Comma-separated renderings of the elements.
pub open spec fn json_text_list(items: Seq<JsonNode>) -> Seq<char>
    decreases items,
{
    if items.len() == 0 {
        Seq::empty()
    } else if items.len() == 1 {
        json_text(items[0])
    } else {
        json_text(items[0]) + seq![','] + json_text_list(items.skip(1))
    }
}

/// Comma-separated `"key":value` renderings of the members.
pub open spec fn json_text_members(ms: Seq<(Seq<char>, JsonNode)>) -> Seq<char>
    decreases ms,
{
    if ms.len() == 0 {
        Seq::empty()
    } else if ms.len() == 1 {
        quoted(ms[0].0) + seq![':'] + json_text(ms[0].1)
    } else {
        quoted(ms[0].0) + seq![':'] + json_text(ms[0].1) + seq![','] + json_text_members(
            ms.skip(1),
        )
    }
}

fn hex_of(d: u32) -> (r: char)
    requires
        d < 16,
    ensures
        r == hex_digit(d as int),
{
    if d == 0 {
        '0'
    } else if d == 1 {
        '1'
    } else if d == 2 {
        '2'
    } else if d == 3 {
        '3'
    } else if d == 4 {
        '4'
    } else if d == 5 {
        '5'
    } else if d == 6 {
        '6'
    } else if d == 7 {
        '7'
    } else if d == 8 {
        '8'
    } else if d == 9 {
        '9'
    } else if d == 10 {
        'a'
    } else if d == 11 {
        'b'
    } else if d == 12 {
        'c'
    } else if d == 13 {
        'd'
    } else if d == 14 {
        'e'
    } else {
        'f'
    }
}

/// Append the escaped form of one character.
fn push_escaped(c: char, out: &mut Vec<char>)
    ensures
        final(out)@ == old(out)@ + escape_char(c),
{
    if c == '"' {
        out.push('\\');
        out.push('"');
        assert(out@ =~= old(out)@ + escape_char(c));
    } else if c == '\\' {
        out.push('\\');
        out.push('\\');
        assert(out@ =~= old(out)@ + escape_char(c));
    } else {
        let u = c as u32;
        if u < 0x20 {
            out.push('\\');
            out.push('u');
            out.push('0');
            out.push('0');
            out.push(hex_of(u / 16));
            out.push(hex_of(u % 16));
            assert(out@ =~= old(out)@ + escape_char(c));
        } else {
            out.push(c);
            assert(out@ =~= old(out)@ + escape_char(c));
        }
    }
}

/// Append a JSON string literal holding `s`.
fn push_quoted(s: &String, out: &mut Vec<char>)
    ensures
        final(out)@ == old(out)@ + quoted(s@),
{
    let chars = crate::chars::str_to_chars(s.as_str());
    out.push('"');
    let ghost base = out@;
    let mut i: usize = 0;
    while i < chars.len()
        invariant
            i <= chars@.len(),
            out@ == base + escape_text(chars@.take(i as int)),
        decreases chars@.len() - i,
    {
        let ghost pre = chars@.take(i as int);
        push_escaped(chars[i], out);
        proof {
            assert(chars@.take(i + 1) =~= pre + seq![chars@[i as int]]);
            lemma_escape_text_concat(pre, seq![chars@[i as int]]);
            assert(seq![chars@[i as int]].skip(1) =~= Seq::<char>::empty());
            assert(escape_text(Seq::<char>::empty()) =~= Seq::<char>::empty());
            assert(escape_text(seq![chars@[i as int]]) =~= escape_char(chars@[i as int])
                + escape_text(Seq::<char>::empty()));
            assert(escape_text(seq![chars@[i as int]]) =~= escape_char(chars@[i as int]));
        }
        i = i + 1;
    }
    out.push('"');
    proof {
        assert(chars@.take(chars@.len() as int) =~= s@);
        assert(out@ =~= old(out)@ + quoted(s@));
    }
}

/// Append the characters of `s`.
fn push_str_chars(s: &String, out: &mut Vec<char>)
    ensures
        final(out)@ == old(out)@ + s@,
{
    let mut chars = crate::chars::str_to_chars(s.as_str());
    out.append(&mut chars);
}

proof fn lemma_obj_lookup_hit(ms: Seq<(Seq<char>, JsonNode)>, key: Seq<char>, i: int)
    requires
        0 <= i < ms.len(),
        ms[i].0 == key,
        forall|k: int| 0 <= k < i ==> ms[k].0 != key,
    ensures
        obj_lookup(ms, key) == Option::Some(ms[i].1),
    decreases i,
{
    if i > 0 {
        lemma_obj_lookup_hit(ms.skip(1), key, i - 1);
    }
}

proof fn lemma_obj_lookup_miss(ms: Seq<(Seq<char>, JsonNode)>, key: Seq<char>)
    requires
        forall|k: int| 0 <= k < ms.len() ==> ms[k].0 != key,
    ensures
        obj_lookup(ms, key) is None,
    decreases ms.len(),
{
    if ms.len() > 0 {
        lemma_obj_lookup_miss(ms.skip(1), key);
    }
}

/// Append the text rendering of `v`.
fn write_json(v: &JsonValue, out: &mut Vec<char>)
    ensures
        final(out)@ == old(out)@ + json_text(json_view(*v)),
    decreases *v,
{
    match v {
        JsonValue::Null => {
            out.push('n');
            out.push('u');
            out.push('l');
            out.push('l');
            assert(out@ =~= old(out)@ + json_text(json_view(*v)));
        },
        JsonValue::Bool(b) => {
            if *b {
                out.push('t');
                out.push('r');
                out.push('u');
                out.push('e');
            } else {
                out.push('f');
                out.push('a');
                out.push('l');
                out.push('s');
                out.push('e');
            }
            assert(out@ =~= old(out)@ + json_text(json_view(*v)));
        },
        JsonValue::Num(s) => {
            push_str_chars(s, out);
        },
        JsonValue::Str(s) => {
            push_quoted(s, out);
        },
        JsonValue::Arr(items) => {
            out.push('[');
            write_list(items, 0, out);
            out.push(']');
            proof {
                assert(json_view_list(items@).skip(0) =~= json_view_list(items@));
                assert(out@ =~= old(out)@ + json_text(json_view(*v)));
            }
        },
        JsonValue::Obj(members) => {
            out.push('{');
            write_members(members, 0, out);
            out.push('}');
            proof {
                assert(json_view_members(members@).skip(0) =~= json_view_members(members@));
                assert(out@ =~= old(out)@ + json_text(json_view(*v)));
            }
        },
    }
}

/// Append the comma-separated renderings of `items[start..]`.
fn write_list(items: &Vec<JsonValue>, start: usize, out: &mut Vec<char>)
    requires
        start <= items@.len(),
    ensures
        final(out)@ == old(out)@ + json_text_list(json_view_list(items@).skip(start as int)),
    decreases items@, items@.len() - start,
{
    proof {
        lemma_json_view_list(items@);
    }
    let ghost tail = json_view_list(items@).skip(start as int);
    if start < items.len() {
        write_json(&items[start], out);
        proof {
            assert(tail[0] == json_view(items@[start as int]));
        }
        if start + 1 < items.len() {
            out.push(',');
            write_list(items, start + 1, out);
            proof {
                assert(json_view_list(items@).skip(start + 1) =~= tail.skip(1));
                assert(out@ =~= old(out)@ + json_text_list(tail));
            }
        } else {
            proof {
                assert(tail.len() == 1);
                assert(out@ =~= old(out)@ + json_text_list(tail));
            }
        }
    } else {
        proof {
            assert(tail.len() == 0);
            assert(out@ =~= old(out)@ + json_text_list(tail));
        }
    }
}

/// Append the comma-separated `"key":value` renderings of `members[start..]`.
fn write_members(members: &Vec<(String, JsonValue)>, start: usize, out: &mut Vec<char>)
    requires
        start <= members@.len(),
    ensures
        final(out)@ == old(out)@ + json_text_members(json_view_members(members@).skip(start as int)),
    decreases members@, members@.len() - start,
{
    proof {
        lemma_json_view_members(members@);
    }
    let ghost tail = json_view_members(members@).skip(start as int);
    if start < members.len() {
        push_quoted(&members[start].0, out);
        out.push(':');
        write_json(&members[start].1, out);
        proof {
            assert(tail[0] == (members@[start as int].0@, json_view(members@[start as int].1)));
        }
        if start + 1 < members.len() {
            out.push(',');
            write_members(members, start + 1, out);
            proof {
                assert(json_view_members(members@).skip(start + 1) =~= tail.skip(1));
                assert(out@ =~= old(out)@ + json_text_members(tail));
            }
        } else {
            proof {
                assert(tail.len() == 1);
                assert(out@ =~= old(out)@ + json_text_members(tail));
            }
        }
    } else {
        proof {
            assert(tail.len() == 0);
            assert(out@ =~= old(out)@ + json_text_members(tail));
        }
    }
}

/// Render a JSON document as its compact text.
pub fn json_to_string(v: &JsonValue) -> (r: String)
    ensures
        r@ == json_text(v@),
{
    let mut out: Vec<char> = Vec::new();
    write_json(v, &mut out);
    assert(out@ =~= json_text(json_view(*v)));
    chars_to_string(&out)
}

/// Copy a JSON document, preserving its mathematical value.
pub fn clone_json(v: &JsonValue) -> (r: JsonValue)
    ensures
        r@ == v@,
    decreases *v,
{
    match v {
        JsonValue::Null => JsonValue::Null,
        JsonValue::Bool(b) => JsonValue::Bool(*b),
        JsonValue::Num(s) => JsonValue::Num(s.clone()),
        JsonValue::Str(s) => JsonValue::Str(s.clone()),
        JsonValue::Arr(items) => {
            let mut out: Vec<JsonValue> = Vec::new();
            let mut i: usize = 0;
            while i < items.len()
                invariant
                    *v == JsonValue::Arr(*items),
                    i <= items@.len(),
                    out@.len() == i,
                    forall|k: int| 0 <= k < i ==> (#[trigger] out@[k])@ == items@[k]@,
                decreases items@.len() - i,
            {
                proof {
                    assert((*v)->Arr_0 == *items);
                    assert(decreases_to!(*v => (*v)->Arr_0));
                    assert(decreases_to!(*items => items@));
                    assert(decreases_to!(items@ => items@[i as int]));
                }
                let c = clone_json(&items[i]);
                out.push(c);
                i = i + 1;
            }
            proof {
                lemma_json_view_list(items@);
                lemma_json_view_list(out@);
                assert(json_view_list(out@) =~= json_view_list(items@));
            }
            JsonValue::Arr(out)
        },
        JsonValue::Obj(members) => {
            let mut out: Vec<(String, JsonValue)> = Vec::new();
            let mut i: usize = 0;
            while i < members.len()
                invariant
                    *v == JsonValue::Obj(*members),
                    i <= members@.len(),
                    out@.len() == i,
                    forall|k: int|
                        0 <= k < i ==> (#[trigger] out@[k]).0@ == members@[k].0@ && out@[k].1@
                            == members@[k].1@,
                decreases members@.len() - i,
            {
                proof {
                    assert((*v)->Obj_0 == *members);
                    assert(decreases_to!(*v => (*v)->Obj_0));
                    assert(decreases_to!(*members => members@));
                    assert(decreases_to!(members@ => members@[i as int]));
                    assert(decreases_to!(members@[i as int] => members@[i as int].1));
                }
                let key = members[i].0.clone();
                let val = clone_json(&members[i].1);
                out.push((key, val));
                i = i + 1;
            }
            proof {
                lemma_json_view_members(members@);
                lemma_json_view_members(out@);
                assert(json_view_members(out@) =~= json_view_members(members@));
            }
            JsonValue::Obj(out)
        },
    }
}

#[verifier::external_type_specification]
#[verifier::external_body]
pub struct ExSerdeValue(serde_json::Value);

/// What parsing a text as JSON yields: `None` when the text is not a JSON
/// document, otherwise the parsed document.  Parsing depends on the text
/// alone.
pub uninterp spec fn json_parse_spec(text: Seq<char>) -> Option<JsonNode>;

/// Carry a parsed `serde_json::Value` over into the library's model, variant
/// by variant; a number keeps the decimal text `serde_json` renders for it.
#[verifier::external_body]
fn from_serde(v: serde_json::Value) -> JsonValue {
    match v {
        serde_json::Value::Null => JsonValue::Null,
        serde_json::Value::Bool(b) => JsonValue::Bool(b),
        serde_json::Value::Number(n) => JsonValue::Num(n.to_string()),
        serde_json::Value::String(s) => JsonValue::Str(s),
        serde_json::Value::Array(a) => JsonValue::Arr(a.into_iter().map(from_serde).collect()),
        serde_json::Value::Object(m) => JsonValue::Obj(
            m.into_iter().map(|kv| (kv.0, from_serde(kv.1))).collect(),
        ),
    }
}

/// Relies on `serde_json::from_str::<serde_json::Value>`: whether a text
/// parses as JSON, and what document it denotes, depend on the text alone.
#[verifier::external_body]
pub fn parse_json(text: &str) -> (r: Option<JsonValue>)
    ensures
        match r {
            Option::Some(v) => json_parse_spec(text@) == Option::Some(json_view(v)),
            Option::None => json_parse_spec(text@) is None,
        },
{
    match serde_json::from_str::<serde_json::Value>(text) {
        Result::Ok(v) => Option::Some(from_serde(v)),
        Result::Err(_) => Option::None,
    }
}

} // verus!
