//! Compact JSON text.
use crate::numeral::{decimal, hex, push_decimal};
use crate::order::{arranged, arrangement, Keyed};
use crate::text::chars_of;
use vstd::prelude::*;

pub mod reading;

verus! {

/// What stands for `c` inside a JSON string.
pub open spec fn json_escape(c: char) -> Seq<char> {
    if c == '"' || c == '\\' {
        seq!['\\', c]
    } else if c as u32 == 8 {
        seq!['\\', 'b']
    } else if c as u32 == 9 {
        seq!['\\', 't']
    } else if c as u32 == 10 {
        seq!['\\', 'n']
    } else if c as u32 == 12 {
        seq!['\\', 'f']
    } else if c as u32 == 13 {
        seq!['\\', 'r']
    } else if (c as u32) < 32 {
        seq!['\\', 'u', '0', '0'] + hex(c as nat, 2, false)
    } else {
        seq![c]
    }
}

/// The characters of `s`, each as it stands inside a JSON string.
pub open spec fn json_escaped(s: Seq<char>) -> Seq<char>
    decreases s.len(),
{
    if s.len() == 0 {
        s
    } else {
        json_escaped(s.drop_last()) + json_escape(s.last())
    }
}

/// The text `s` as a JSON string.
pub open spec fn json_string(s: Seq<char>) -> Seq<char> {
    seq!['"'] + json_escaped(s) + seq!['"']
}

/// `serde_json::to_string` on a text: the JSON string that holds it. The quote, the backslash and
/// the control characters below U+0020 are escaped, all others stand for themselves.
#[verifier::external_body]
fn quoted(text: &str) -> (r: String)
    ensures
        r@ == json_string(text@),
{
    serde_json::to_string(text).unwrap()
}

/// The text as a JSON string.
pub fn string_json(text: &str) -> (r: Vec<char>)
    ensures
        r@ == json_string(text@),
{
    chars_of(quoted(text).as_str())
}

/// The text that the JSON object in the bytes has under a name: what `serde_json::Value::get` and
/// `serde_json::Value::as_str` give of what `serde_json::from_slice` reads. None, where the bytes are
/// no JSON, no object, or hold no text under that name.
pub uninterp spec fn json_text_member(bytes: Seq<u8>, name: Seq<char>) -> Option<Seq<char>>;

/// The words in which `serde_json::from_slice` says of bytes why they are no JSON. None, where they
/// are.
pub uninterp spec fn json_fault(bytes: Seq<u8>) -> Option<Seq<char>>;

/// Reads the bytes with `serde_json::from_slice` and takes out of them the text under a name, or says
/// why they are no JSON. The contract claims that the text depends on the bytes and the name alone,
/// that the words depend on the bytes alone, and that there is no text in what is no JSON.
#[verifier::external_body]
fn read_text_member(input: &[u8], name: &str) -> (r: Result<Option<String>, String>)
    ensures
        match r {
            Ok(Some(text)) => json_fault(input@) is None && json_text_member(input@, name@) == Some(text@),
            Ok(None) => json_fault(input@) is None && json_text_member(input@, name@) is None,
            Err(words) => json_fault(input@) == Some(words@) && json_text_member(input@, name@) is None,
        },
{
    match serde_json::from_slice::<serde_json::Value>(input) {
        Ok(value) => Ok(value.get(name).and_then(serde_json::Value::as_str).map(str::to_owned)),
        Err(error) => Err(error.to_string()),
    }
}

/// The text that the JSON object in the bytes has under a name, or why the bytes are no JSON.
pub fn json_member_text(input: &[u8], name: &str) -> (r: Result<Option<String>, String>)
    ensures
        match r {
            Ok(Some(text)) => json_fault(input@) is None && json_text_member(input@, name@) == Some(text@),
            Ok(None) => json_fault(input@) is None && json_text_member(input@, name@) is None,
            Err(words) => json_fault(input@) == Some(words@) && json_text_member(input@, name@) is None,
        },
{
    read_text_member(input, name)
}

/// The text that the JSON object in the bytes has under a name.
pub fn text_member(input: &[u8], name: &str) -> (r: Option<String>)
    ensures
        match r {
            Some(text) => json_text_member(input@, name@) == Some(text@),
            None => json_text_member(input@, name@) is None,
        },
{
    match read_text_member(input, name) {
        Ok(text) => text,
        Err(_) => None,
    }
}

/// `body` followed by another item, behind a comma where it is not the first.
pub open spec fn json_item(body: Seq<char>, item: Seq<char>) -> Seq<char> {
    if body.len() == 0 {
        item
    } else {
        body.push(',') + item
    }
}

/// A named value of an object.
pub open spec fn json_named(key: Seq<char>, value: Seq<char>) -> Seq<char> {
    json_string(key).push(':') + value
}

/// The members of an object, followed by another one.
pub open spec fn json_member(body: Seq<char>, key: Seq<char>, value: Seq<char>) -> Seq<char> {
    json_item(body, json_named(key, value))
}

/// The members of an object, followed by another one where there is a value for it.
pub open spec fn json_optional(body: Seq<char>, key: Seq<char>, value: Option<Seq<char>>) -> Seq<char> {
    match value {
        Some(text) => json_member(body, key, text),
        None => body,
    }
}

/// The object with the members `body`.
pub open spec fn json_object(body: Seq<char>) -> Seq<char> {
    seq!['{'] + body + seq!['}']
}

/// The items of a list, one behind the other.
pub open spec fn json_items(items: Seq<Seq<char>>) -> Seq<char>
    decreases items.len(),
{
    if items.len() == 0 {
        Seq::empty()
    } else {
        json_item(json_items(items.drop_last()), items.last())
    }
}

/// The list of the items.
pub open spec fn json_list(items: Seq<Seq<char>>) -> Seq<char> {
    seq!['['] + json_items(items) + seq![']']
}

/// A truth value.
pub open spec fn json_bool(value: bool) -> Seq<char> {
    if value {
        seq!['t', 'r', 'u', 'e']
    } else {
        seq!['f', 'a', 'l', 's', 'e']
    }
}

/// The value, or `null` where there is none.
pub open spec fn json_nullable(value: Option<Seq<char>>) -> Seq<char> {
    match value {
        Some(text) => text,
        None => seq!['n', 'u', 'l', 'l'],
    }
}

/// Adds `more` at the end of `out`.
pub fn push_chars(out: &mut Vec<char>, more: &[char])
    ensures
        final(out)@ == old(out)@ + more@,
{
    let mut i: usize = 0;
    while i < more.len()
        invariant
            i <= more.len(),
            out@ == old(out)@ + more@.take(i as int),
        decreases more.len() - i,
    {
        out.push(more[i]);
        assert(more@.take(i + 1) =~= more@.take(i as int).push(more@[i as int]));
        i = i + 1;
    }
    assert(more@.take(more@.len() as int) =~= more@);
}

/// Adds an item behind those of `body`.
pub fn add_item(body: &mut Vec<char>, item: &[char])
    ensures
        final(body)@ == json_item(old(body)@, item@),
{
    if body.len() > 0 {
        body.push(',');
    }
    push_chars(body, item);
    assert(body@ =~= json_item(old(body)@, item@));
}

/// Adds a member behind those of `body`.
pub fn add_member(body: &mut Vec<char>, key: &str, value: &[char])
    ensures
        final(body)@ == json_member(old(body)@, key@, value@),
{
    let mut member: Vec<char> = string_json(key);
    member.push(':');
    push_chars(&mut member, value);
    add_item(body, member.as_slice());
}

/// Adds a member whose value is a text behind those of `body`.
pub fn add_string(body: &mut Vec<char>, key: &str, value: &str)
    ensures
        final(body)@ == json_member(old(body)@, key@, json_string(value@)),
{
    let text: Vec<char> = string_json(value);
    add_member(body, key, text.as_slice());
}

/// The text, where there is one, as a JSON string.
pub open spec fn optional_string(value: Option<String>) -> Option<Seq<char>> {
    match value {
        Some(text) => Some(json_string(text@)),
        None => None,
    }
}

/// Adds a member whose value is a text behind those of `body`, where there is one.
pub fn add_optional_string(body: &mut Vec<char>, key: &str, value: &Option<String>)
    ensures
        final(body)@ == json_optional(old(body)@, key@, optional_string(*value)),
{
    if let Some(text) = value {
        add_string(body, key, text.as_str());
    }
}

/// The object with the members `body`.
pub fn object_json(body: &[char]) -> (r: Vec<char>)
    ensures
        r@ == json_object(body@),
{
    let mut out: Vec<char> = Vec::new();
    out.push('{');
    push_chars(&mut out, body);
    out.push('}');
    assert(out@ =~= json_object(body@));
    out
}

/// The number in decimal digits.
pub fn number_json(n: u64) -> (r: Vec<char>)
    ensures
        r@ == decimal(n as nat),
{
    let mut out: Vec<char> = Vec::new();
    push_decimal(&mut out, n);
    assert(out@ =~= decimal(n as nat));
    out
}

/// The truth value.
pub fn bool_json(value: bool) -> (r: Vec<char>)
    ensures
        r@ == json_bool(value),
{
    let mut out: Vec<char> = Vec::new();
    if value {
        out.push('t');
        out.push('r');
        out.push('u');
        out.push('e');
    } else {
        out.push('f');
        out.push('a');
        out.push('l');
        out.push('s');
        out.push('e');
    }
    assert(out@ =~= json_bool(value));
    out
}

/// The word `null`.
pub fn null_json() -> (r: Vec<char>)
    ensures
        r@ == json_nullable(None),
{
    let mut out: Vec<char> = Vec::new();
    out.push('n');
    out.push('u');
    out.push('l');
    out.push('l');
    assert(out@ =~= json_nullable(None));
    out
}

/// A value that has a JSON form.
pub trait ToJson: Sized {
    spec fn json(&self) -> Seq<char>;

    fn write_json(&self) -> (r: Vec<char>)
        ensures
            r@ == self.json(),
    ;
}

impl ToJson for String {
    open spec fn json(&self) -> Seq<char> {
        json_string(self@)
    }

    fn write_json(&self) -> (r: Vec<char>) {
        string_json(self.as_str())
    }
}

/// The JSON forms of the values.
pub open spec fn jsons<T: ToJson>(v: Seq<T>) -> Seq<Seq<char>> {
    Seq::new(v.len(), |i: int| v[i].json())
}

/// The value's JSON form, where there is one.
pub open spec fn optional_json<T: ToJson>(value: Option<T>) -> Option<Seq<char>> {
    match value {
        Some(x) => Some(x.json()),
        None => None,
    }
}

/// Adds a member behind those of `body`, where there is a value for it.
pub fn add_optional<T: ToJson>(body: &mut Vec<char>, key: &str, value: &Option<T>)
    ensures
        final(body)@ == json_optional(old(body)@, key@, optional_json(*value)),
{
    if let Some(x) = value {
        let text: Vec<char> = x.write_json();
        add_member(body, key, text.as_slice());
    }
}

/// Adds a member behind those of `body`.
pub fn add_value<T: ToJson>(body: &mut Vec<char>, key: &str, value: &T)
    ensures
        final(body)@ == json_member(old(body)@, key@, value.json()),
{
    let text: Vec<char> = value.write_json();
    add_member(body, key, text.as_slice());
}

/// Adds a member behind those of `body`: the value, or `null` where there is none.
pub fn add_nullable<T: ToJson>(body: &mut Vec<char>, key: &str, value: &Option<T>)
    ensures
        final(body)@ == json_member(old(body)@, key@, json_nullable(optional_json(*value))),
{
    let text: Vec<char> = match value {
        Some(x) => x.write_json(),
        None => null_json(),
    };
    add_member(body, key, text.as_slice());
}

/// Adds a number as a member behind those of `body`.
pub fn add_number(body: &mut Vec<char>, key: &str, value: u64)
    ensures
        final(body)@ == json_member(old(body)@, key@, decimal(value as nat)),
{
    let text: Vec<char> = number_json(value);
    add_member(body, key, text.as_slice());
}

/// Adds a truth value as a member behind those of `body`.
pub fn add_bool(body: &mut Vec<char>, key: &str, value: bool)
    ensures
        final(body)@ == json_member(old(body)@, key@, json_bool(value)),
{
    let text: Vec<char> = bool_json(value);
    add_member(body, key, text.as_slice());
}

/// The list of the values.
pub fn list_json<T: ToJson>(v: &Vec<T>) -> (r: Vec<char>)
    ensures
        r@ == json_list(jsons(v@)),
{
    let mut body: Vec<char> = Vec::new();
    let mut i: usize = 0;
    while i < v.len()
        invariant
            i <= v.len(),
            body@ == json_items(jsons(v@.take(i as int))),
        decreases v.len() - i,
    {
        let item: Vec<char> = v[i].write_json();
        add_item(&mut body, item.as_slice());
        proof {
            let next = jsons(v@.take(i + 1));
            assert(next.drop_last() =~= jsons(v@.take(i as int)));
            assert(next.last() == v@[i as int].json());
        }
        i = i + 1;
    }
    assert(v@.take(v@.len() as int) =~= v@);
    let r: Vec<char> = bracketed(body.as_slice());
    r
}

fn bracketed(body: &[char]) -> (r: Vec<char>)
    ensures
        r@ == seq!['['] + body@ + seq![']'],
{
    let mut out: Vec<char> = Vec::new();
    out.push('[');
    push_chars(&mut out, body);
    out.push(']');
    assert(out@ =~= seq!['['] + body@ + seq![']']);
    out
}

/// The list of the values, in order.
pub fn sorted_json<T: ToJson + Keyed>(v: &Vec<T>) -> (r: Vec<char>)
    ensures
        r@ == json_list(jsons(arranged(v@))),
{
    let order: Vec<usize> = arrangement(v);
    let ghost all = arranged(v@);
    let mut body: Vec<char> = Vec::new();
    let mut i: usize = 0;
    while i < order.len()
        invariant
            i <= order.len(),
            order.len() == all.len(),
            forall|k: int| 0 <= k < order.len() ==> #[trigger] order@[k] < v.len() && v@[order@[k] as int] == all[k],
            body@ == json_items(jsons(all.take(i as int))),
        decreases order.len() - i,
    {
        let item: Vec<char> = v[order[i]].write_json();
        add_item(&mut body, item.as_slice());
        proof {
            let next = jsons(all.take(i + 1));
            assert(next.drop_last() =~= jsons(all.take(i as int)));
            assert(next.last() == all[i as int].json());
        }
        i = i + 1;
    }
    assert(all.take(all.len() as int) =~= all);
    bracketed(body.as_slice())
}

} // verus!
