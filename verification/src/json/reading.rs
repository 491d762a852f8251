//! What a reader of JSON takes out of it.
use super::{
    json_bool, json_escape, json_escaped, json_items, json_list, json_member, json_named, json_object, json_string,
};
use crate::numeral::{decimal, hex, law_decimals_read_back};
use vstd::prelude::*;

verus! {

/// Where a reader stands: how many brackets are open, whether in a string, and whether behind a backslash there.
pub struct Standing {
    pub depth: int,
    pub inside: bool,
    pub escape: bool,
}

/// Outside of everything.
pub open spec fn outside() -> Standing {
    Standing { depth: 0, inside: false, escape: false }
}

/// Where the reader stands behind one more character.
pub open spec fn behind(st: Standing, c: char) -> Standing {
    if st.inside {
        if st.escape {
            Standing { escape: false, ..st }
        } else if c == '\\' {
            Standing { escape: true, ..st }
        } else if c == '"' {
            Standing { inside: false, ..st }
        } else {
            st
        }
    } else if c == '"' {
        Standing { inside: true, ..st }
    } else if c == '{' || c == '[' {
        Standing { depth: st.depth + 1, ..st }
    } else if c == '}' || c == ']' {
        Standing { depth: st.depth - 1, ..st }
    } else {
        st
    }
}

/// Where the reader stands behind a text.
pub open spec fn behind_all(st: Standing, s: Seq<char>) -> Standing
    decreases s.len(),
{
    if s.len() == 0 {
        st
    } else {
        behind(behind_all(st, s.drop_last()), s.last())
    }
}

/// How far the first of the things between top-level commas goes, from `i` on.
pub open spec fn first_end(s: Seq<char>, i: int) -> int
    decreases s.len() - i,
{
    if i < 0 || i >= s.len() {
        s.len() as int
    } else if behind_all(outside(), s.take(i)) == outside() && s[i] == ',' {
        i
    } else {
        first_end(s, i + 1)
    }
}

/// The things between the top-level commas.
pub open spec fn pieces(s: Seq<char>) -> Seq<Seq<char>>
    decreases s.len(),
{
    let end = first_end(s, 0);
    if s.len() == 0 || end < 0 || end > s.len() {
        Seq::empty()
    } else if end == s.len() {
        seq![s]
    } else {
        seq![s.take(end)] + pieces(s.skip(end + 1))
    }
}

/// The text between the brackets of an object or a list.
pub open spec fn between_brackets(json: Seq<char>) -> Seq<char> {
    json.subrange(1, json.len() - 1)
}

/// The items of a list.
#[verifier::opaque]
pub open spec fn items_of(json: Seq<char>) -> Seq<Seq<char>> {
    pieces(between_brackets(json))
}

/// The name and the value of a member: what stands in the quotes, and what stands behind the colon.
pub open spec fn member_of(piece: Seq<char>) -> (Seq<char>, Seq<char>) {
    let end = quote_end(piece, 1);
    (piece.subrange(1, end), piece.skip(end + 2))
}

/// Where the next quote stands, from `i` on.
pub open spec fn quote_end(s: Seq<char>, i: int) -> int
    decreases s.len() - i,
{
    if i < 0 || i >= s.len() || s[i] == '"' {
        i
    } else {
        quote_end(s, i + 1)
    }
}

/// The members of an object, in their order.
#[verifier::opaque]
pub open spec fn members_of(json: Seq<char>) -> Seq<(Seq<char>, Seq<char>)> {
    pieces(between_brackets(json)).map_values(|piece: Seq<char>| member_of(piece))
}

/// One JSON value: its strings and brackets are closed, and nothing outside of them ends it early.
#[verifier::opaque]
pub open spec fn one_value(v: Seq<char>) -> bool {
    &&& v.len() > 0
    &&& behind_all(outside(), v) == outside()
    &&& forall|i: int|
        0 <= i < v.len() ==> {
            let st = behind_all(outside(), #[trigger] v.take(i));
            &&& st.depth >= 0
            &&& st == outside() ==> v[i] != ',' && v[i] != '}' && v[i] != ']'
        }
}

/// A value or a member: closed, with no comma at its top.
spec fn closed(v: Seq<char>) -> bool {
    &&& behind_all(outside(), v) == outside()
    &&& forall|i: int|
        0 <= i < v.len() ==> {
            let st = behind_all(outside(), #[trigger] v.take(i));
            &&& st.depth >= 0
            &&& st == outside() ==> v[i] != ','
        }
}

proof fn lemma_behind_concat(st: Standing, a: Seq<char>, b: Seq<char>)
    ensures
        behind_all(st, a + b) == behind_all(behind_all(st, a), b),
    decreases b.len(),
{
    if b.len() == 0 {
        assert(a + b =~= a);
    } else {
        lemma_behind_concat(st, a, b.drop_last());
        assert((a + b).drop_last() =~= a + b.drop_last());
        assert((a + b).last() == b.last());
    }
}

/// Deeper down, everything is as it is at the top.
proof fn lemma_deeper(st: Standing, d: int, s: Seq<char>)
    ensures
        behind_all(Standing { depth: st.depth + d, ..st }, s) == (Standing {
            depth: behind_all(st, s).depth + d,
            ..behind_all(st, s)
        }),
    decreases s.len(),
{
    if s.len() > 0 {
        lemma_deeper(st, d, s.drop_last());
    }
}

proof fn lemma_first_end(v: Seq<char>, rest: Seq<char>, i: int)
    requires
        closed(v),
        0 <= i <= v.len(),
    ensures
        first_end(v, i) == v.len(),
        first_end(v + seq![','] + rest, i) == v.len(),
    decreases v.len() - i,
{
    let all = v + seq![','] + rest;
    assert(all.take(i) =~= v.take(i));
    if i < v.len() {
        assert(all[i] == v[i]);
        lemma_first_end(v, rest, i + 1);
    } else {
        assert(v.take(i) =~= v);
        assert(all[i] == ',');
    }
}

proof fn lemma_pieces(v: Seq<char>, rest: Seq<char>)
    requires
        closed(v),
        v.len() > 0,
    ensures
        pieces(v) == seq![v],
        pieces(v + seq![','] + rest) == seq![v] + pieces(rest),
{
    lemma_first_end(v, rest, 0);
    let all = v + seq![','] + rest;
    assert(all.take(v.len() as int) =~= v);
    assert(all.skip(v.len() as int + 1) =~= rest);
}

/// The text of the pieces with commas between them.
spec fn with_commas(v: Seq<Seq<char>>) -> Seq<char>
    decreases v.len(),
{
    if v.len() == 0 {
        Seq::empty()
    } else if v.len() == 1 {
        v[0]
    } else {
        v[0] + seq![','] + with_commas(v.skip(1))
    }
}

proof fn lemma_with_commas_push(v: Seq<Seq<char>>, x: Seq<char>)
    ensures
        v.len() > 0 ==> with_commas(v.push(x)) == with_commas(v) + seq![','] + x,
        v.len() == 0 ==> with_commas(v.push(x)) == x,
    decreases v.len(),
{
    let more = v.push(x);
    if v.len() == 1 {
        assert(more.skip(1) =~= seq![x]);
        assert(with_commas(seq![x]) == x);
    } else if v.len() > 1 {
        lemma_with_commas_push(v.skip(1), x);
        assert(more.skip(1) =~= v.skip(1).push(x));
        assert(with_commas(more) =~= with_commas(v) + seq![','] + x);
    }
}

proof fn lemma_pieces_of(v: Seq<Seq<char>>)
    requires
        forall|i: int| 0 <= i < v.len() ==> closed(#[trigger] v[i]) && v[i].len() > 0,
    ensures
        pieces(with_commas(v)) == v,
    decreases v.len(),
{
    if v.len() == 0 {
        assert(pieces(with_commas(v)) =~= v);
    } else {
        let rest = v.skip(1);
        assert(closed(v[0]) && v[0].len() > 0);
        lemma_pieces(v[0], with_commas(rest));
        if v.len() == 1 {
            assert(seq![v[0]] =~= v);
        } else {
            assert forall|i: int| 0 <= i < rest.len() implies closed(#[trigger] rest[i]) && rest[i].len() > 0 by {
                assert(rest[i] == v[i + 1]);
            }
            lemma_pieces_of(rest);
            assert(seq![v[0]] + rest =~= v);
        }
    }
}

/// Pieces one behind the other, with commas between them, are closed too, but for those commas.
proof fn lemma_nested(v: Seq<Seq<char>>)
    requires
        forall|i: int| 0 <= i < v.len() ==> closed(#[trigger] v[i]),
    ensures
        behind_all(outside(), with_commas(v)) == outside(),
        forall|i: int|
            0 <= i < with_commas(v).len() ==> behind_all(outside(), #[trigger] with_commas(v).take(i)).depth >= 0,
    decreases v.len(),
{
    if v.len() > 0 {
        let first = v[0];
        assert(closed(first));
        let rest = v.skip(1);
        let text = with_commas(v);
        assert forall|i: int| 0 <= i < rest.len() implies closed(#[trigger] rest[i]) by {
            assert(rest[i] == v[i + 1]);
        }
        lemma_nested(rest);
        if v.len() > 1 {
            let tail = with_commas(rest);
            let head = first + seq![','];
            lemma_behind_concat(outside(), first, seq![',']);
            assert(seq![','].drop_last() =~= Seq::<char>::empty());
            assert(behind_all(outside(), seq![',']) == outside()) by {
                assert(behind_all(outside(), Seq::<char>::empty()) == outside());
            }
            lemma_behind_concat(outside(), head, tail);
            assert(text =~= head + tail);
            assert forall|i: int| 0 <= i < text.len() implies behind_all(outside(), #[trigger] text.take(i)).depth >= 0 by {
                if i < first.len() {
                    assert(text.take(i) =~= first.take(i));
                } else if i == first.len() {
                    assert(text.take(i) =~= first);
                } else {
                    let k = i - head.len();
                    assert(text.take(i) =~= head + tail.take(k));
                    lemma_behind_concat(outside(), head, tail.take(k));
                }
            }
        } else {
            assert forall|i: int| 0 <= i < text.len() implies behind_all(outside(), #[trigger] text.take(i)).depth >= 0 by {
                assert(text.take(i) =~= first.take(i));
            }
        }
    }
}

/// Brackets round pieces make one value.
#[verifier::rlimit(40)]
proof fn lemma_bracketed(open: char, v: Seq<Seq<char>>, close: char)
    requires
        open == '{' && close == '}' || open == '[' && close == ']',
        forall|i: int| 0 <= i < v.len() ==> closed(#[trigger] v[i]),
    ensures
        one_value(seq![open] + with_commas(v) + seq![close]),
{
    reveal(one_value);
    let body = with_commas(v);
    let all = seq![open] + body + seq![close];
    lemma_nested(v);
    let one = seq![open];
    assert(one.drop_last() =~= Seq::<char>::empty());
    assert(behind_all(outside(), one) == (Standing { depth: 1, inside: false, escape: false })) by {
        assert(behind_all(outside(), Seq::<char>::empty()) == outside());
    }
    lemma_behind_concat(outside(), one, body);
    lemma_deeper(outside(), 1, body);
    assert(all.drop_last() =~= one + body);
    assert(all.last() == close);
    assert forall|i: int| 0 <= i < all.len() implies ({
        let st = behind_all(outside(), #[trigger] all.take(i));
        &&& st.depth >= 0
        &&& st == outside() ==> all[i] != ',' && all[i] != '}' && all[i] != ']'
    }) by {
        if i == 0 {
            assert(all.take(0) =~= Seq::<char>::empty());
        } else if i <= body.len() {
            let part = body.take(i - 1);
            assert(all.take(i) =~= one + part);
            lemma_behind_concat(outside(), one, part);
            lemma_deeper(outside(), 1, part);
            if i - 1 < body.len() {
                assert(with_commas(v).take(i - 1) == part);
            }
        } else {
            assert(all.take(i) =~= one + body);
        }
    }
}

/// The characters of a string, with what its escapes stand for; none where there is no such escape.
pub open spec fn unescaped(s: Seq<char>) -> Option<Seq<char>>
    decreases s.len(),
{
    if s.len() == 0 {
        Some(s)
    } else if s[0] != '\\' {
        match unescaped(s.skip(1)) {
            Some(rest) => Some(seq![s[0]] + rest),
            None => None,
        }
    } else if s.len() >= 6 && s[1] == 'u' && s[2] == '0' && s[3] == '0' {
        match unescaped(s.skip(6)) {
            Some(rest) => Some(seq![(16 * digit_of_hex(s[4]) + digit_of_hex(s[5])) as char] + rest),
            None => None,
        }
    } else if s.len() >= 2 && escaped_char(s[1]) is Some {
        match unescaped(s.skip(2)) {
            Some(rest) => Some(seq![escaped_char(s[1]).unwrap()] + rest),
            None => None,
        }
    } else {
        None
    }
}

/// What a backslash and the character stand for.
pub open spec fn escaped_char(c: char) -> Option<char> {
    if c == '"' || c == '\\' || c == '/' {
        Some(c)
    } else if c == 'b' {
        Some(8u8 as char)
    } else if c == 't' {
        Some(9u8 as char)
    } else if c == 'n' {
        Some(10u8 as char)
    } else if c == 'f' {
        Some(12u8 as char)
    } else if c == 'r' {
        Some(13u8 as char)
    } else {
        None
    }
}

/// The value of a hexadecimal digit.
pub open spec fn digit_of_hex(c: char) -> int {
    if '0' <= c <= '9' {
        c as int - '0' as int
    } else if 'a' <= c <= 'f' {
        c as int - 'a' as int + 10
    } else {
        c as int - 'A' as int + 10
    }
}

/// The text that a JSON string holds.
#[verifier::opaque]
pub open spec fn string_in(json: Seq<char>) -> Option<Seq<char>> {
    if json.len() >= 2 && json[0] == '"' && json.last() == '"' {
        unescaped(json.subrange(1, json.len() - 1))
    } else {
        None
    }
}

proof fn lemma_hex_pair(n: nat)
    requires
        n < 32,
    ensures
        hex(n, 2, false).len() == 2,
        16 * digit_of_hex(hex(n, 2, false)[0]) + digit_of_hex(hex(n, 2, false)[1]) == n,
        forall|i: int| 0 <= i < 2 ==> #[trigger] hex(n, 2, false)[i] != '"' && hex(n, 2, false)[i] != '\\',
{
    reveal_with_fuel(hex, 4);
}

#[verifier::rlimit(40)]
proof fn lemma_escape(c: char, rest: Seq<char>)
    ensures
        unescaped(json_escape(c) + rest) == (match unescaped(rest) {
            Some(more) => Some(seq![c] + more),
            None => None,
        }),
        behind_all(Standing { inside: true, ..outside() }, json_escape(c)) == (Standing { inside: true, ..outside() }),
        forall|i: int|
            0 <= i < json_escape(c).len() ==> behind_all(
                Standing { inside: true, ..outside() },
                #[trigger] json_escape(c).take(i),
            ).inside && behind_all(Standing { inside: true, ..outside() }, json_escape(c).take(i)).depth == 0,
        json_escape(c).len() > 0,
{
    let e = json_escape(c);
    let s = e + rest;
    let st = Standing { inside: true, ..outside() };
    if (c as u32) < 32 {
        lemma_hex_pair(c as nat);
    }
    reveal_with_fuel(behind_all, 8);
    if e.len() == 1 {
        assert(s.skip(1) =~= rest);
        assert(e.drop_last() =~= Seq::<char>::empty());
        assert(e.take(0) =~= Seq::<char>::empty());
    } else if e.len() == 2 {
        assert(s.skip(2) =~= rest);
        assert(e.take(0) =~= Seq::<char>::empty());
        assert(e.take(1) =~= seq![e[0]]);
        assert(seq![e[0]].drop_last() =~= Seq::<char>::empty());
        assert(e.drop_last() =~= seq![e[0]]);
    } else {
        assert(s.skip(6) =~= rest);
        lemma_inside(e, 0);
        lemma_inside(e, 1);
        lemma_inside(e, 2);
        lemma_inside(e, 3);
        lemma_inside(e, 4);
        lemma_inside(e, 5);
        lemma_inside(e, 6);
        assert(e.take(6) =~= e);
    }
}

/// Behind a backslash and a letter, and plain characters, the reader is in the string as before.
proof fn lemma_inside(e: Seq<char>, i: int)
    requires
        0 <= i <= e.len(),
        e.len() == 6,
        e[0] == '\\',
        forall|j: int| 1 <= j < 6 ==> #[trigger] e[j] != '"' && e[j] != '\\',
    ensures
        behind_all(Standing { inside: true, ..outside() }, e.take(i)) == (Standing {
            inside: true,
            escape: i == 1,
            ..outside()
        }),
    decreases i,
{
    if i > 0 {
        lemma_inside(e, i - 1);
        assert(e.take(i).drop_last() =~= e.take(i - 1));
        assert(e.take(i).last() == e[i - 1]);
    } else {
        assert(e.take(0) =~= Seq::<char>::empty());
    }
}

proof fn lemma_escaped_front(s: Seq<char>)
    requires
        s.len() > 0,
    ensures
        json_escaped(s) == json_escape(s[0]) + json_escaped(s.skip(1)),
    decreases s.len(),
{
    if s.len() == 1 {
        assert(s.drop_last() =~= Seq::<char>::empty());
        assert(s.skip(1) =~= Seq::<char>::empty());
        assert(json_escaped(Seq::<char>::empty()) =~= Seq::<char>::empty());
        assert(json_escaped(s) =~= json_escape(s[0]));
        assert(json_escape(s[0]) + Seq::<char>::empty() =~= json_escape(s[0]));
    } else {
        lemma_escaped_front(s.drop_last());
        assert(s.drop_last().skip(1) =~= s.skip(1).drop_last());
        assert(s.skip(1).last() == s.last());
        assert(json_escaped(s) =~= json_escape(s[0]) + json_escaped(s.skip(1)));
    }
}

proof fn lemma_escaped_inside(s: Seq<char>)
    ensures
        unescaped(json_escaped(s)) == Some(s),
        behind_all(Standing { inside: true, ..outside() }, json_escaped(s)) == (Standing { inside: true, ..outside() }),
        forall|i: int|
            0 <= i < json_escaped(s).len() ==> behind_all(
                Standing { inside: true, ..outside() },
                #[trigger] json_escaped(s).take(i),
            ).inside && behind_all(Standing { inside: true, ..outside() }, json_escaped(s).take(i)).depth == 0,
    decreases s.len(),
{
    let st = Standing { inside: true, ..outside() };
    if s.len() > 0 {
        let rest = s.skip(1);
        let (head, tail, all) = (json_escape(s[0]), json_escaped(rest), json_escaped(s));
        lemma_escaped_front(s);
        lemma_escaped_inside(rest);
        lemma_escape(s[0], tail);
        lemma_behind_concat(st, head, tail);
        assert(seq![s[0]] + rest =~= s);
        assert forall|i: int| 0 <= i < all.len() implies behind_all(st, #[trigger] all.take(i)).inside && behind_all(
            st,
            all.take(i),
        ).depth == 0 by {
            if i < head.len() {
                assert(all.take(i) =~= head.take(i));
            } else {
                let k = i - head.len();
                assert(all.take(i) =~= head + tail.take(k));
                lemma_behind_concat(st, head, tail.take(k));
            }
        }
    }
}

/// A JSON string holds the text that it was made of, whatever that holds, and is one value.
pub proof fn law_json_strings_read_back(s: Seq<char>)
    ensures
        string_in(json_string(s)) == Some(s),
        one_value(json_string(s)),
{
    reveal(string_in);
    reveal(one_value);
    let body = json_escaped(s);
    let all = json_string(s);
    let quote = seq!['"'];
    let st = Standing { inside: true, ..outside() };
    lemma_escaped_inside(s);
    assert(all.subrange(1, all.len() - 1) =~= body);
    assert(behind_all(outside(), quote) == st) by {
        assert(quote.drop_last() =~= Seq::<char>::empty());
        assert(behind_all(outside(), Seq::<char>::empty()) == outside());
    }
    lemma_behind_concat(outside(), quote, body);
    assert(all.drop_last() =~= quote + body);
    assert(all.last() == '"');
    assert forall|i: int| 0 <= i < all.len() implies ({
        let st = behind_all(outside(), #[trigger] all.take(i));
        &&& st.depth >= 0
        &&& st == outside() ==> all[i] != ',' && all[i] != '}' && all[i] != ']'
    }) by {
        if i == 0 {
            assert(all.take(0) =~= Seq::<char>::empty());
        } else if i <= body.len() {
            let part = body.take(i - 1);
            assert(all.take(i) =~= quote + part);
            lemma_behind_concat(outside(), quote, part);
            if i - 1 < body.len() {
                assert(json_escaped(s).take(i - 1) == part);
            }
        } else {
            assert(all.take(i) =~= quote + body);
        }
    }
}

/// Letters and digits are one value.
proof fn lemma_plain_value(v: Seq<char>)
    requires
        v.len() > 0,
        forall|i: int| 0 <= i < v.len() ==> ('0' <= #[trigger] v[i] <= '9' || 'a' <= v[i] <= 'z'),
    ensures
        one_value(v),
{
    reveal(one_value);
    lemma_plain_prefix(v, v.len() as int);
    assert(v.take(v.len() as int) =~= v);
    assert forall|i: int| 0 <= i < v.len() implies behind_all(outside(), #[trigger] v.take(i)) == outside() by {
        lemma_plain_prefix(v, i);
    }
}

proof fn lemma_plain_prefix(v: Seq<char>, i: int)
    requires
        0 <= i <= v.len(),
        forall|i: int| 0 <= i < v.len() ==> ('0' <= #[trigger] v[i] <= '9' || 'a' <= v[i] <= 'z'),
    ensures
        behind_all(outside(), v.take(i)) == outside(),
    decreases i,
{
    if i > 0 {
        lemma_plain_prefix(v, i - 1);
        assert(v.take(i).drop_last() =~= v.take(i - 1));
        assert(v.take(i).last() == v[i - 1]);
    }
}

/// Numbers, truth values and null are one value.
pub proof fn law_plain_json_is_one_value(n: nat, b: bool)
    ensures
        one_value(decimal(n)),
        one_value(json_bool(b)),
        one_value(seq!['n', 'u', 'l', 'l']),
{
    lemma_digits_of(n);
    law_decimals_read_back(n);
    lemma_plain_value(decimal(n));
    lemma_plain_value(json_bool(b));
    lemma_plain_value(seq!['n', 'u', 'l', 'l']);
}

proof fn lemma_digits_of(n: nat)
    ensures
        forall|i: int| 0 <= i < decimal(n).len() ==> '0' <= #[trigger] decimal(n)[i] <= '9',
    decreases n,
{
    if n >= 10 {
        lemma_digits_of(n / 10);
        let head = decimal(n / 10);
        assert forall|i: int| 0 <= i < decimal(n).len() implies '0' <= #[trigger] decimal(n)[i] <= '9' by {
            if i < head.len() {
                assert(decimal(n)[i] == head[i]);
            }
        }
    }
}

/// A name that needs no escapes.
#[verifier::opaque]
pub open spec fn plain_name(name: Seq<char>) -> bool {
    forall|i: int| 0 <= i < name.len() ==> #[trigger] name[i] != '"' && name[i] != '\\' && name[i] as u32 >= 32
}

proof fn lemma_plain_name(name: Seq<char>)
    requires
        plain_name(name),
    ensures
        json_escaped(name) == name,
    decreases name.len(),
{
    reveal(plain_name);
    if name.len() > 0 {
        let front = name.drop_last();
        assert forall|i: int| 0 <= i < front.len() implies #[trigger] front[i] != '"' && front[i] != '\\' && front[i]
            as u32 >= 32 by {
            assert(front[i] == name[i]);
        }
        lemma_plain_name(front);
        assert(name[name.len() - 1] == name.last());
        assert(json_escaped(name) =~= name);
    }
}

proof fn lemma_quote_end(s: Seq<char>, i: int, end: int)
    requires
        0 <= i <= end < s.len(),
        s[end] == '"',
        forall|j: int| i <= j < end ==> #[trigger] s[j] != '"',
    ensures
        quote_end(s, i) == end,
    decreases end - i,
{
    if i < end {
        assert(s[i] != '"');
        lemma_quote_end(s, i + 1, end);
    }
}

#[verifier::rlimit(40)]
proof fn lemma_member(name: Seq<char>, value: Seq<char>)
    requires
        plain_name(name),
        one_value(value),
    ensures
        closed(json_named(name, value)),
        json_named(name, value).len() > 0,
        member_of(json_named(name, value)) == (name, value),
{
    reveal(plain_name);
    reveal(one_value);
    let piece = json_named(name, value);
    lemma_plain_name(name);
    law_json_strings_read_back(name);
    let key = json_string(name);
    let head = key.push(':');
    assert(piece =~= head + value);
    assert(piece[name.len() as int + 1] == '"');
    assert forall|j: int| 1 <= j < name.len() + 1 implies #[trigger] piece[j] != '"' by {
        assert(piece[j] == name[j - 1]);
    }
    lemma_quote_end(piece, 1, name.len() as int + 1);
    assert(piece.subrange(1, name.len() as int + 1) =~= name);
    assert(piece.skip(name.len() as int + 3) =~= value);
    assert(head.drop_last() =~= key);
    assert(head.last() == ':');
    assert(behind_all(outside(), head) == outside());
    lemma_behind_concat(outside(), head, value);
    assert forall|i: int| 0 <= i < piece.len() implies ({
        let st = behind_all(outside(), #[trigger] piece.take(i));
        &&& st.depth >= 0
        &&& st == outside() ==> piece[i] != ','
    }) by {
        if i < key.len() {
            assert(piece.take(i) =~= key.take(i));
            assert(piece[i] == key[i]);
        } else if i == key.len() {
            assert(piece.take(i) =~= key);
            assert(piece[i] == ':');
        } else {
            let k = i - head.len();
            assert(piece.take(i) =~= head + value.take(k));
            lemma_behind_concat(outside(), head, value.take(k));
            assert(piece[i] == value[k]);
        }
    }
}

/// The texts of members, one by one.
spec fn named(members: Seq<(Seq<char>, Seq<char>)>) -> Seq<Seq<char>> {
    members.map_values(|m: (Seq<char>, Seq<char>)| json_named(m.0, m.1))
}

/// The body of an object writes the members: their names are plain, and each has one value.
#[verifier::opaque]
pub closed spec fn writes_members(body: Seq<char>, members: Seq<(Seq<char>, Seq<char>)>) -> bool {
    &&& body == with_commas(named(members))
    &&& forall|i: int| 0 <= i < members.len() ==> plain_name((#[trigger] members[i]).0) && one_value(members[i].1)
}

/// Nothing writes no members.
pub proof fn lemma_no_members()
    ensures
        writes_members(Seq::empty(), Seq::empty()),
{
    reveal(writes_members);
    assert(named(Seq::empty()) =~= Seq::empty());
}

/// One more member.
pub proof fn lemma_one_more_member(
    body: Seq<char>,
    members: Seq<(Seq<char>, Seq<char>)>,
    name: Seq<char>,
    value: Seq<char>,
)
    requires
        writes_members(body, members),
        plain_name(name),
        one_value(value),
    ensures
        writes_members(json_member(body, name, value), members.push((name, value))),
        json_member(body, name, value).len() > 0,
{
    reveal(writes_members);
    let more = members.push((name, value));
    lemma_with_commas_push(named(members), json_named(name, value));
    assert(named(more) =~= named(members).push(json_named(name, value)));
    if members.len() > 0 {
        lemma_written_length(members);
        assert(json_member(body, name, value) =~= body + seq![','] + json_named(name, value));
    } else {
        assert(named(members).len() == 0);
    }
    assert forall|i: int| 0 <= i < more.len() implies plain_name((#[trigger] more[i]).0) && one_value(more[i].1) by {
        if i < members.len() {
            assert(more[i] == members[i]);
        }
    }
}

proof fn lemma_written_length(members: Seq<(Seq<char>, Seq<char>)>)
    requires
        members.len() > 0,
    ensures
        with_commas(named(members)).len() > 0,
{
    let v = named(members);
    assert(v[0] == json_named(members[0].0, members[0].1));
    assert(v[0].len() > 0);
}

/// Read back, an object has the members that were written into it, and is one value.
pub proof fn lemma_object_read_back(body: Seq<char>, members: Seq<(Seq<char>, Seq<char>)>)
    requires
        writes_members(body, members),
    ensures
        members_of(json_object(body)) == members,
        one_value(json_object(body)),
{
    reveal(members_of);
    reveal(writes_members);
    let v = named(members);
    assert forall|i: int| 0 <= i < v.len() implies closed(#[trigger] v[i]) && v[i].len() > 0 && member_of(v[i])
        == members[i] by {
        assert(plain_name(members[i].0) && one_value(members[i].1));
        lemma_member(members[i].0, members[i].1);
    }
    lemma_pieces_of(v);
    lemma_bracketed('{', v, '}');
    assert(between_brackets(json_object(body)) =~= body);
    assert(members_of(json_object(body)) =~= members);
}

proof fn lemma_items(items: Seq<Seq<char>>)
    requires
        forall|i: int| 0 <= i < items.len() ==> (#[trigger] items[i]).len() > 0,
    ensures
        json_items(items) == with_commas(items),
        items.len() > 0 ==> json_items(items).len() > 0,
    decreases items.len(),
{
    if items.len() > 0 {
        let front = items.drop_last();
        assert forall|i: int| 0 <= i < front.len() implies (#[trigger] front[i]).len() > 0 by {
            assert(front[i] == items[i]);
        }
        lemma_items(front);
        lemma_with_commas_push(front, items.last());
        assert(front.push(items.last()) =~= items);
        assert(items[items.len() - 1].len() > 0);
        if front.len() > 0 {
            assert(json_items(items) =~= with_commas(front) + seq![','] + items.last());
        } else {
            assert(json_items(front).len() == 0);
        }
    }
}

/// Read back, a list has the items that were written into it, in their order, and is one value.
pub proof fn law_json_lists_read_back(items: Seq<Seq<char>>)
    requires
        forall|i: int| 0 <= i < items.len() ==> one_value(#[trigger] items[i]),
    ensures
        items_of(json_list(items)) == items,
        one_value(json_list(items)),
{
    reveal(one_value);
    reveal(items_of);
    assert forall|i: int| 0 <= i < items.len() implies (#[trigger] items[i]).len() > 0 && closed(items[i]) by {
        assert(one_value(items[i]));
        assert forall|k: int| 0 <= k < items[i].len() implies ({
            let st = behind_all(outside(), #[trigger] items[i].take(k));
            &&& st.depth >= 0
            &&& st == outside() ==> items[i][k] != ','
        }) by {}
    }
    lemma_items(items);
    lemma_pieces_of(items);
    lemma_bracketed('[', items, ']');
    assert(between_brackets(json_list(items)) =~= json_items(items));
}

} // verus!
