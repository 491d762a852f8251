//! What a reader of annotations takes out of them.
use super::annotations::{
    annotation, annotation_char, annotation_text, finding_metadata, last_line, law_escaped_text_is_inert,
    level_word, location_metadata, metadata_with, title_text, MAX_GITHUB_COORDINATE,
};
use crate::model::{DecisionAction, Finding, Location, Tool};
use crate::numeral::{decimal, law_decimals_read_back, written_number};
use vstd::prelude::*;

verus! {

/// Where the character stands first; behind the text where it does not.
pub open spec fn place_of_char(s: Seq<char>, c: char) -> int
    decreases s.len(),
{
    if s.len() == 0 || s[0] == c {
        0
    } else {
        1 + place_of_char(s.skip(1), c)
    }
}

/// The text with what the percent escapes stand for.
pub open spec fn plain_again(s: Seq<char>) -> Seq<char>
    decreases s.len(),
{
    if s.len() == 0 {
        s
    } else if s.len() >= 3 && s[0] == '%' && s[1] == '2' && s[2] == '5' {
        seq!['%'] + plain_again(s.skip(3))
    } else if s.len() >= 3 && s[0] == '%' && s[1] == '0' && s[2] == 'D' {
        seq!['\r'] + plain_again(s.skip(3))
    } else if s.len() >= 3 && s[0] == '%' && s[1] == '0' && s[2] == 'A' {
        seq!['\n'] + plain_again(s.skip(3))
    } else if s.len() >= 3 && s[0] == '%' && s[1] == '3' && s[2] == 'A' {
        seq![':'] + plain_again(s.skip(3))
    } else if s.len() >= 3 && s[0] == '%' && s[1] == '2' && s[2] == 'C' {
        seq![','] + plain_again(s.skip(3))
    } else {
        seq![s[0]] + plain_again(s.skip(1))
    }
}

/// The value of the first entry with that key, among entries `key=value` with commas between them.
pub open spec fn entry_value(entries: Seq<char>, key: Seq<char>) -> Option<Seq<char>>
    decreases entries.len(),
{
    let end = place_of_char(entries, ',');
    if end < 0 || end > entries.len() {
        None
    } else {
        let entry = entries.take(end);
        if entry.take(place_of_char(entry, '=')) == key && place_of_char(entry, '=') < entry.len() {
            Some(plain_again(entry.skip(place_of_char(entry, '=') + 1)))
        } else if end < entries.len() {
            entry_value(entries.skip(end + 1), key)
        } else {
            None
        }
    }
}

/// What stands between the first two colons of a workflow command and the next one.
pub open spec fn command_head(line: Seq<char>) -> Seq<char> {
    line.skip(2).take(place_of_char(line.skip(2), ':'))
}

/// The command: what its head says before the first space.
pub open spec fn command_word(line: Seq<char>) -> Seq<char> {
    command_head(line).take(place_of_char(command_head(line), ' '))
}

/// The entries: what the head says after the first space.
pub open spec fn command_entries(line: Seq<char>) -> Seq<char> {
    command_head(line).skip(place_of_char(command_head(line), ' ') + 1)
}

/// The message: what stands behind the head and two more colons, up to the line's end.
pub open spec fn command_message(line: Seq<char>) -> Seq<char> {
    plain_again(line.skip(2).skip(place_of_char(line.skip(2), ':') + 2).drop_last())
}

pub proof fn lemma_place_of_char(a: Seq<char>, c: char, b: Seq<char>)
    requires
        forall|i: int| 0 <= i < a.len() ==> #[trigger] a[i] != c,
    ensures
        place_of_char(a, c) == a.len(),
        place_of_char(a + seq![c] + b, c) == a.len(),
    decreases a.len(),
{
    let whole = a + seq![c] + b;
    if a.len() > 0 {
        assert(a[0] != c);
        assert forall|i: int| 0 <= i < a.skip(1).len() implies #[trigger] a.skip(1)[i] != c by {
            assert(a[i + 1] != c);
        }
        lemma_place_of_char(a.skip(1), c, b);
        assert(whole.skip(1) =~= a.skip(1) + seq![c] + b);
        assert(whole[0] == a[0]);
    } else {
        assert(whole[0] == c);
    }
}

proof fn lemma_annotation_concat(a: Seq<char>, b: Seq<char>, metadata: bool)
    ensures
        annotation_text(a + b, metadata) == annotation_text(a, metadata) + annotation_text(b, metadata),
    decreases b.len(),
{
    if b.len() == 0 {
        assert(a + b =~= a);
        assert(annotation_text(a, metadata) + annotation_text(b, metadata) =~= annotation_text(a, metadata));
    } else {
        lemma_annotation_concat(a, b.drop_last(), metadata);
        assert((a + b).drop_last() =~= a + b.drop_last());
        assert((a + b).last() == b.last());
        assert(annotation_text(a + b, metadata) =~= annotation_text(a, metadata) + annotation_text(b, metadata));
    }
}

proof fn lemma_plain_again(c: char, rest: Seq<char>, metadata: bool)
    ensures
        plain_again(annotation_char(c, metadata) + rest) == seq![c] + plain_again(rest),
{
    let s = annotation_char(c, metadata) + rest;
    if c == '%' || c == '\r' || c == '\n' || metadata && (c == ':' || c == ',') {
        assert(s.skip(3) =~= rest);
    } else {
        assert(s.skip(1) =~= rest);
    }
}

/// Escaped text reads back as the text.
pub proof fn law_escaped_text_reads_back(s: Seq<char>, metadata: bool)
    ensures
        plain_again(annotation_text(s, metadata)) == s,
    decreases s.len(),
{
    if s.len() > 0 {
        let first = seq![s[0]];
        assert(s =~= first + s.skip(1));
        lemma_annotation_concat(first, s.skip(1), metadata);
        assert(first.drop_last() =~= Seq::<char>::empty());
        assert(annotation_text(Seq::<char>::empty(), metadata) =~= Seq::<char>::empty());
        assert(annotation_text(first, metadata) =~= annotation_char(s[0], metadata));
        lemma_plain_again(s[0], annotation_text(s.skip(1), metadata), metadata);
        law_escaped_text_reads_back(s.skip(1), metadata);
    }
}

spec fn entry_text(entry: (Seq<char>, Seq<char>)) -> Seq<char> {
    entry.0 + seq!['='] + annotation_text(entry.1, true)
}

spec fn entries_text(entries: Seq<(Seq<char>, Seq<char>)>) -> Seq<char>
    decreases entries.len(),
{
    if entries.len() == 0 {
        Seq::empty()
    } else if entries.len() == 1 {
        entry_text(entries[0])
    } else {
        entry_text(entries[0]) + seq![','] + entries_text(entries.skip(1))
    }
}

spec fn plain_key(key: Seq<char>) -> bool {
    &&& key.len() > 0
    &&& forall|i: int|
        0 <= i < key.len() ==> #[trigger] key[i] != ',' && key[i] != '=' && key[i] != ':' && key[i] != ' '
}

proof fn lemma_entry_text(entry: (Seq<char>, Seq<char>))
    requires
        plain_key(entry.0),
    ensures
        entry_text(entry).len() > 0,
        forall|i: int| 0 <= i < entry_text(entry).len() ==> (#[trigger] entry_text(entry)[i]) != ',' && entry_text(entry)[i] != ':',
{
    law_escaped_text_is_inert(entry.1, true);
    let t = entry_text(entry);
    assert forall|i: int| 0 <= i < t.len() implies (#[trigger] t[i]) != ',' && t[i] != ':' by {
        if i < entry.0.len() {
            assert(t[i] == entry.0[i]);
        } else if i > entry.0.len() {
            assert(t[i] == annotation_text(entry.1, true)[i - entry.0.len() - 1]);
        }
    }
}

proof fn lemma_entries_text_push(entries: Seq<(Seq<char>, Seq<char>)>, entry: (Seq<char>, Seq<char>))
    ensures
        entries.len() > 0 ==> entries_text(entries.push(entry)) == entries_text(entries) + seq![','] + entry_text(entry),
        entries.len() == 0 ==> entries_text(entries.push(entry)) == entry_text(entry),
    decreases entries.len(),
{
    let more = entries.push(entry);
    if entries.len() == 1 {
        assert(more.skip(1) =~= seq![entry]);
        assert(entries_text(seq![entry]) == entry_text(entry));
    } else if entries.len() > 1 {
        lemma_entries_text_push(entries.skip(1), entry);
        assert(more.skip(1) =~= entries.skip(1).push(entry));
        assert(entries_text(more) =~= entries_text(entries) + seq![','] + entry_text(entry));
    }
}

proof fn lemma_entries_hold_no_colon(entries: Seq<(Seq<char>, Seq<char>)>)
    requires
        forall|i: int| 0 <= i < entries.len() ==> plain_key((#[trigger] entries[i]).0),
    ensures
        forall|i: int| 0 <= i < entries_text(entries).len() ==> #[trigger] entries_text(entries)[i] != ':',
        entries.len() > 0 ==> entries_text(entries).len() > 0,
    decreases entries.len(),
{
    if entries.len() > 0 {
        lemma_entry_text(entries[0]);
        let rest = entries.skip(1);
        assert forall|i: int| 0 <= i < rest.len() implies plain_key((#[trigger] rest[i]).0) by {
            assert(rest[i] == entries[i + 1]);
        }
        lemma_entries_hold_no_colon(rest);
        let one = entry_text(entries[0]);
        let t = entries_text(entries);
        assert forall|i: int| 0 <= i < t.len() implies #[trigger] t[i] != ':' by {
            if i < one.len() {
                assert(t[i] == one[i]);
            } else if i > one.len() {
                assert(t[i] == entries_text(rest)[i - one.len() - 1]);
            }
        }
    }
}

proof fn lemma_first_entry(entry: (Seq<char>, Seq<char>), rest: Seq<char>, key: Seq<char>)
    requires
        plain_key(entry.0),
    ensures
        entry_value(entry_text(entry), key) == (if key == entry.0 {
            Some(entry.1)
        } else {
            None
        }),
        entry_value(entry_text(entry) + seq![','] + rest, key) == (if key == entry.0 {
            Some(entry.1)
        } else {
            entry_value(rest, key)
        }),
{
    lemma_entry_text(entry);
    let one = entry_text(entry);
    let value = annotation_text(entry.1, true);
    lemma_place_of_char(one, ',', rest);
    lemma_place_of_char(entry.0, '=', value);
    law_escaped_text_reads_back(entry.1, true);
    assert(one.take(entry.0.len() as int) =~= entry.0);
    assert(one.skip(entry.0.len() as int + 1) =~= value);
    assert(one.take(one.len() as int) =~= one);
    let whole = one + seq![','] + rest;
    assert(whole.take(one.len() as int) =~= one);
    assert(whole.skip(one.len() as int + 1) =~= rest);
}

/// The value of the first of the entries with that key.
spec fn value_among(entries: Seq<(Seq<char>, Seq<char>)>, key: Seq<char>) -> Option<Seq<char>>
    decreases entries.len(),
{
    if entries.len() == 0 {
        None
    } else if entries[0].0 == key {
        Some(entries[0].1)
    } else {
        value_among(entries.skip(1), key)
    }
}

proof fn lemma_entry_value(entries: Seq<(Seq<char>, Seq<char>)>, key: Seq<char>)
    requires
        forall|i: int| 0 <= i < entries.len() ==> plain_key((#[trigger] entries[i]).0),
        entries.len() > 0,
    ensures
        entry_value(entries_text(entries), key) == value_among(entries, key),
    decreases entries.len(),
{
    let rest = entries.skip(1);
    lemma_first_entry(entries[0], entries_text(rest), key);
    if entries.len() > 1 {
        assert forall|i: int| 0 <= i < rest.len() implies plain_key((#[trigger] rest[i]).0) by {
            assert(rest[i] == entries[i + 1]);
        }
        lemma_entry_value(rest, key);
    }
}

proof fn lemma_value_at(entries: Seq<(Seq<char>, Seq<char>)>, key: Seq<char>, at: int)
    requires
        0 <= at <= entries.len(),
        forall|i: int| 0 <= i < at ==> (#[trigger] entries[i]).0 != key,
        at < entries.len() ==> entries[at].0 == key,
    ensures
        value_among(entries, key) == (if at < entries.len() {
            Some(entries[at].1)
        } else {
            None
        }),
    decreases at,
{
    if at > 0 {
        let rest = entries.skip(1);
        assert(entries[0].0 != key);
        assert forall|i: int| 0 <= i < at - 1 implies (#[trigger] rest[i]).0 != key by {
            assert(rest[i] == entries[i + 1]);
        }
        lemma_value_at(rest, key, at - 1);
    }
}

proof fn lemma_keys()
    ensures
        plain_key("file"@),
        plain_key("line"@),
        plain_key("col"@),
        plain_key("endLine"@),
        plain_key("endColumn"@),
        plain_key("title"@),
        "file"@.len() == 4 && "file"@[0] == 'f',
        "line"@.len() == 4 && "line"@[0] == 'l',
        "col"@.len() == 3,
        "endLine"@.len() == 7,
        "endColumn"@.len() == 9,
        "title"@.len() == 5,
{
    reveal_strlit("file");
    reveal_strlit("line");
    reveal_strlit("col");
    reveal_strlit("endLine");
    reveal_strlit("endColumn");
    reveal_strlit("title");
}

/// The metadata writes the entries, behind a space.
spec fn writes(metadata: Seq<char>, entries: Seq<(Seq<char>, Seq<char>)>) -> bool {
    metadata == if entries.len() == 0 {
        Seq::empty()
    } else {
        seq![' '] + entries_text(entries)
    }
}

proof fn lemma_metadata_with(
    metadata: Seq<char>,
    entries: Seq<(Seq<char>, Seq<char>)>,
    key: Seq<char>,
    value: Seq<char>,
)
    requires
        writes(metadata, entries),
    ensures
        writes(metadata_with(metadata, key, value), entries.push((key, value))),
{
    lemma_entries_text_push(entries, (key, value));
    assert(metadata_with(metadata, key, value) =~= seq![' '] + entries_text(entries.push((key, value))));
}

/// The entries about a place, as metadata writes them.
#[verifier::rlimit(40)]
proof fn lemma_location_entries(location: Location) -> (entries: Seq<(Seq<char>, Seq<char>)>)
    ensures
        writes(location_metadata(location), entries),
        forall|i: int| 0 <= i < entries.len() ==> plain_key((#[trigger] entries[i]).0),
        forall|i: int| 0 <= i < entries.len() ==> (#[trigger] entries[i]).0 != "title"@,
        location.start.line > 0x7fff_ffff ==> entries.len() == 0,
        location.start.line <= 0x7fff_ffff ==> {
            let start = location.start;
            &&& value_among(entries, "file"@) == Some(location.path@)
            &&& value_among(entries, "line"@) == Some(decimal(start.line as nat))
            &&& match location.end {
                None => {
                    &&& value_among(entries, "endLine"@) is None
                    &&& value_among(entries, "endColumn"@) is None
                    &&& value_among(entries, "col"@) == (if start.column <= 0x7fff_ffff {
                        Some(decimal(start.column as nat))
                    } else {
                        None
                    })
                },
                Some(end) => if end.line == start.line {
                    &&& value_among(entries, "endLine"@) == Some(decimal(end.line as nat))
                    &&& value_among(entries, "col"@) == (if start.column <= 0x7fff_ffff {
                        Some(decimal(start.column as nat))
                    } else {
                        None
                    })
                    &&& value_among(entries, "endColumn"@) == (if start.column < end.column && end.column <= 0x8000_0000
                        && start.column <= 0x7fff_ffff {
                        Some(decimal((end.column - 1) as nat))
                    } else {
                        None
                    })
                } else if last_line(end) <= 0x7fff_ffff {
                    &&& value_among(entries, "endLine"@) == Some(decimal(last_line(end)))
                    &&& value_among(entries, "col"@) is None
                    &&& value_among(entries, "endColumn"@) is None
                } else {
                    &&& value_among(entries, "endLine"@) is None
                    &&& value_among(entries, "endColumn"@) is None
                    &&& value_among(entries, "col"@) == (if start.column <= 0x7fff_ffff {
                        Some(decimal(start.column as nat))
                    } else {
                        None
                    })
                },
            }
        },
{
    lemma_keys();
    let start = location.start;
    let none = Seq::<(Seq<char>, Seq<char>)>::empty();
    if start.line > MAX_GITHUB_COORDINATE {
        none
    } else {
        let (file, line, col, last, right) = ("file"@, "line"@, "col"@, "endLine"@, "endColumn"@);
        let row = decimal(start.line as nat);
        let column = decimal(start.column as nat);
        let a = none.push((file, location.path@)).push((line, row));
        let place = metadata_with(Seq::empty(), file, location.path@);
        lemma_metadata_with(Seq::empty(), none, file, location.path@);
        lemma_metadata_with(place, none.push((file, location.path@)), line, row);
        let place = metadata_with(place, line, row);
        lemma_value_at(a, file, 0);
        lemma_value_at(a, line, 1);
        lemma_value_at(a, col, 2);
        lemma_value_at(a, last, 2);
        lemma_value_at(a, right, 2);
        let b = a.push((col, column));
        lemma_metadata_with(place, a, col, column);
        lemma_value_at(b, file, 0);
        lemma_value_at(b, line, 1);
        lemma_value_at(b, col, 2);
        lemma_value_at(b, last, 3);
        lemma_value_at(b, right, 3);
        let open = if start.column <= MAX_GITHUB_COORDINATE {
            b
        } else {
            a
        };
        match location.end {
            None => open,
            Some(end) => if end.line != start.line {
                let c = a.push((last, decimal(last_line(end))));
                lemma_metadata_with(place, a, last, decimal(last_line(end)));
                lemma_value_at(c, file, 0);
                lemma_value_at(c, line, 1);
                lemma_value_at(c, last, 2);
                lemma_value_at(c, col, 3);
                lemma_value_at(c, right, 3);
                if last_line(end) <= MAX_GITHUB_COORDINATE {
                    c
                } else {
                    open
                }
            } else {
                let c = a.push((last, decimal(end.line as nat)));
                lemma_metadata_with(place, a, last, decimal(end.line as nat));
                let place = metadata_with(place, last, decimal(end.line as nat));
                lemma_value_at(c, file, 0);
                lemma_value_at(c, line, 1);
                lemma_value_at(c, last, 2);
                lemma_value_at(c, col, 3);
                lemma_value_at(c, right, 3);
                let d = c.push((col, column));
                lemma_metadata_with(place, c, col, column);
                let place = metadata_with(place, col, column);
                lemma_value_at(d, file, 0);
                lemma_value_at(d, line, 1);
                lemma_value_at(d, last, 2);
                lemma_value_at(d, col, 3);
                lemma_value_at(d, right, 4);
                if start.column > MAX_GITHUB_COORDINATE {
                    c
                } else if end.column > start.column && end.column - 1 <= MAX_GITHUB_COORDINATE {
                    let edge = decimal((end.column - 1) as nat);
                    let e = d.push((right, edge));
                    lemma_metadata_with(place, d, right, edge);
                    lemma_value_at(e, file, 0);
                    lemma_value_at(e, line, 1);
                    lemma_value_at(e, last, 2);
                    lemma_value_at(e, col, 3);
                    lemma_value_at(e, right, 4);
                    e
                } else {
                    d
                }
            },
        }
    }
}

/// The tool and, behind a colon and a space, its rule where it has one.
pub open spec fn tool_and_rule(tool: Tool) -> Seq<char> {
    match tool.rule_id {
        Some(rule) => tool.name@ + seq![':', ' '] + rule@,
        None => tool.name@,
    }
}

proof fn lemma_title(tool: Tool)
    ensures
        title_text(tool) == annotation_text(tool_and_rule(tool), true),
{
    reveal_strlit(": ");
    assert(": "@ =~= seq![':', ' ']);
    if let Some(rule) = tool.rule_id {
        lemma_annotation_concat(tool.name@, ": "@, true);
        lemma_annotation_concat(tool.name@ + ": "@, rule@, true);
    }
}

proof fn lemma_level_words(action: DecisionAction)
    ensures
        forall|i: int|
            0 <= i < level_word(action).len() ==> #[trigger] level_word(action)[i] != ':' && level_word(action)[i] != ' ',
{
    reveal_strlit("error");
    reveal_strlit("warning");
    reveal_strlit("notice");
}

/// The annotation, in the parts that a reader takes it apart into.
#[verifier::rlimit(40)]
proof fn lemma_annotation_parts(
    finding: Finding,
    action: DecisionAction,
    entries: Seq<(Seq<char>, Seq<char>)>,
)
    requires
        writes(finding_metadata(finding), entries),
        forall|i: int| 0 <= i < entries.len() ==> plain_key((#[trigger] entries[i]).0),
    ensures
        command_word(annotation(finding, action)) == level_word(action),
        command_entries(annotation(finding, action)) == entries_text(
            entries.push(("title"@, tool_and_rule(finding.tool))),
        ),
        command_message(annotation(finding, action)) == finding.message@,
{
    let line = annotation(finding, action);
    let metadata = finding_metadata(finding);
    let title = ("title"@, tool_and_rule(finding.tool));
    let all = entries.push(title);
    let word = level_word(action);
    let message = annotation_text(finding.message@, false);
    lemma_keys();
    lemma_level_words(action);
    lemma_title(finding.tool);
    lemma_metadata_with(metadata, entries, title.0, title.1);
    reveal_strlit("title");
    reveal_strlit(",title=");
    reveal_strlit(" title=");
    let lead = if metadata.len() > 0 {
        ",title="@
    } else {
        " title="@
    };
    assert(lead =~= (if metadata.len() > 0 {
        seq![',']
    } else {
        seq![' ']
    }) + "title"@ + seq!['=']);
    assert(metadata + lead + title_text(finding.tool) =~= metadata_with(metadata, title.0, title.1));
    assert forall|i: int| 0 <= i < all.len() implies plain_key((#[trigger] all[i]).0) by {
        if i < entries.len() {
            assert(all[i] == entries[i]);
        }
    }
    lemma_entries_hold_no_colon(all);
    let text = entries_text(all);
    let head = word + seq![' '] + text;
    let rest = seq![':'] + message + seq!['\n'];
    let colons = seq![':', ':'];
    assert(line =~= colons + word + (metadata + lead + title_text(finding.tool)) + colons + message + seq!['\n']);
    assert(line =~= colons + (head + seq![':'] + rest));
    assert(line.skip(2) =~= head + seq![':'] + rest);
    assert forall|i: int| 0 <= i < head.len() implies #[trigger] head[i] != ':' by {
        if i < word.len() {
            assert(head[i] == word[i]);
        } else if i > word.len() {
            assert(head[i] == text[i - word.len() - 1]);
        }
    }
    lemma_place_of_char(head, ':', rest);
    assert(command_head(line) =~= head);
    lemma_place_of_char(word, ' ', text);
    assert(command_word(line) =~= word);
    assert(command_entries(line) =~= text);
    assert(line.skip(2).skip(head.len() as int + 2).drop_last() =~= message);
    law_escaped_text_reads_back(finding.message@, false);
}

/// The number that the entry with that key writes.
pub open spec fn entry_number(entries: Seq<char>, key: Seq<char>) -> Option<nat> {
    match entry_value(entries, key) {
        Some(digits) => written_number(digits),
        None => None,
    }
}

proof fn lemma_annotation_entry(finding: Finding, action: DecisionAction, entries: Seq<(Seq<char>, Seq<char>)>, key: Seq<char>)
    requires
        writes(finding_metadata(finding), entries),
        forall|i: int| 0 <= i < entries.len() ==> plain_key((#[trigger] entries[i]).0),
        key != "title"@,
    ensures
        entry_value(command_entries(annotation(finding, action)), key) == value_among(entries, key),
    decreases entries.len(),
{
    lemma_keys();
    lemma_annotation_parts(finding, action, entries);
    let title = ("title"@, tool_and_rule(finding.tool));
    let all = entries.push(title);
    assert forall|i: int| 0 <= i < all.len() implies plain_key((#[trigger] all[i]).0) by {
        if i < entries.len() {
            assert(all[i] == entries[i]);
        }
    }
    lemma_entry_value(all, key);
    lemma_value_of_push(entries, title, key);
}

proof fn lemma_value_of_push(entries: Seq<(Seq<char>, Seq<char>)>, entry: (Seq<char>, Seq<char>), key: Seq<char>)
    ensures
        entry.0 != key ==> value_among(entries.push(entry), key) == value_among(entries, key),
        entry.0 == key && (forall|i: int| 0 <= i < entries.len() ==> (#[trigger] entries[i]).0 != key) ==> value_among(
            entries.push(entry),
            key,
        ) == Some(entry.1),
    decreases entries.len(),
{
    let more = entries.push(entry);
    if entries.len() == 0 {
        assert(more.skip(1) =~= Seq::empty());
        assert(value_among(more.skip(1), key) is None);
    } else {
        let rest = entries.skip(1);
        assert(more.skip(1) =~= rest.push(entry));
        assert(more[0] == entries[0]);
        lemma_value_of_push(rest, entry, key);
        if forall|i: int| 0 <= i < entries.len() ==> (#[trigger] entries[i]).0 != key {
            assert forall|i: int| 0 <= i < rest.len() implies (#[trigger] rest[i]).0 != key by {
                assert(rest[i] == entries[i + 1]);
            }
        }
    }
}

/// Read back, an annotation names the finding's place: its file, its line and, where there are such entries,
/// the column where it starts, the last line in the range and the last column in it.
#[verifier::rlimit(40)]
pub proof fn law_annotations_name_the_place(finding: Finding, action: DecisionAction, location: Location)
    requires
        finding.location == Some(location),
        location.start.line <= 0x7fff_ffff,
    ensures
        ({
            let entries = command_entries(annotation(finding, action));
            let start = location.start;
            &&& entry_value(entries, "file"@) == Some(location.path@)
            &&& entry_number(entries, "line"@) == Some(start.line as nat)
            &&& entry_value(entries, "col"@) is Some ==> entry_number(entries, "col"@) == Some(start.column as nat)
            &&& entry_value(entries, "endLine"@) is Some ==> {
                let end = location.end.unwrap();
                &&& location.end is Some
                &&& entry_number(entries, "endLine"@) == Some(
                    if end.column == 1 && end.line > 0 && end.line != start.line {
                        (end.line - 1) as nat
                    } else {
                        end.line as nat
                    },
                )
                &&& end.line >= start.line ==> entry_number(entries, "endLine"@).unwrap() >= start.line
            }
            &&& entry_value(entries, "endColumn"@) is Some ==> {
                let end = location.end.unwrap();
                &&& location.end is Some
                &&& end.line == start.line
                &&& start.column < end.column
                &&& entry_number(entries, "endColumn"@) == Some((end.column - 1) as nat)
                &&& entry_value(entries, "col"@) is Some
            }
        }),
{
    let entries = lemma_location_entries(location);
    lemma_keys();
    lemma_annotation_entry(finding, action, entries, "file"@);
    lemma_annotation_entry(finding, action, entries, "line"@);
    lemma_annotation_entry(finding, action, entries, "col"@);
    lemma_annotation_entry(finding, action, entries, "endLine"@);
    lemma_annotation_entry(finding, action, entries, "endColumn"@);
    law_decimals_read_back(location.start.line as nat);
    law_decimals_read_back(location.start.column as nat);
    if let Some(end) = location.end {
        law_decimals_read_back(end.line as nat);
        law_decimals_read_back(last_line(end));
        law_decimals_read_back((end.column - 1) as nat);
    }
}

/// An annotation has every entry about the place that fits the runner's coordinates and does not make a range
/// over several lines name columns: the column of a point or of a range in one line, the last line of a
/// range, the last column of a range in one line that is not empty.
pub proof fn law_annotations_name_all_of_the_place(finding: Finding, action: DecisionAction, location: Location)
    requires
        finding.location == Some(location),
        location.start.line <= 0x7fff_ffff,
        location.start.column <= 0x7fff_ffff,
        location.end matches Some(end) ==> end.line <= 0x7fff_ffff && end.column <= 0x7fff_ffff,
    ensures
        ({
            let entries = command_entries(annotation(finding, action));
            let start = location.start;
            &&& entry_value(entries, "col"@) is Some <==> (location.end matches Some(end) ==> end.line == start.line)
            &&& entry_value(entries, "endLine"@) is Some <==> location.end is Some
            &&& entry_value(entries, "endColumn"@) is Some <==> (location.end matches Some(end) && end.line == start.line
                && end.column > start.column)
        }),
{
    let entries = lemma_location_entries(location);
    lemma_keys();
    lemma_annotation_entry(finding, action, entries, "col"@);
    lemma_annotation_entry(finding, action, entries, "endLine"@);
    lemma_annotation_entry(finding, action, entries, "endColumn"@);
}

/// An annotation without a place that the runner could show names none.
pub proof fn law_annotations_make_up_no_place(finding: Finding, action: DecisionAction)
    requires
        finding.location matches Some(location) ==> location.start.line > 0x7fff_ffff,
    ensures
        ({
            let entries = command_entries(annotation(finding, action));
            &&& entry_value(entries, "file"@) is None
            &&& entry_value(entries, "line"@) is None
            &&& entry_value(entries, "col"@) is None
            &&& entry_value(entries, "endLine"@) is None
            &&& entry_value(entries, "endColumn"@) is None
        }),
{
    let entries = match finding.location {
        Some(location) => lemma_location_entries(location),
        None => Seq::empty(),
    };
    assert(entries.len() == 0);
    lemma_keys();
    lemma_annotation_entry(finding, action, entries, "file"@);
    lemma_annotation_entry(finding, action, entries, "line"@);
    lemma_annotation_entry(finding, action, entries, "col"@);
    lemma_annotation_entry(finding, action, entries, "endLine"@);
    lemma_annotation_entry(finding, action, entries, "endColumn"@);
}

/// Read back, an annotation is an error where the finding blocks, a warning where it warns, and a notice
/// otherwise; its title is the tool and its rule, and its message the finding's.
pub proof fn law_annotations_say_what_was_decided(finding: Finding, action: DecisionAction)
    ensures
        ({
            let line = annotation(finding, action);
            &&& line[0] == ':' && line[1] == ':'
            &&& command_word(line) == "error"@ <==> action == DecisionAction::Block
            &&& command_word(line) == "warning"@ <==> action == DecisionAction::Warn
            &&& command_word(line) == "notice"@ <==> action == DecisionAction::Observe || action == DecisionAction::Waive
            &&& entry_value(command_entries(line), "title"@) == Some(tool_and_rule(finding.tool))
            &&& command_message(line) == finding.message@
        }),
{
    let entries = match finding.location {
        Some(location) => lemma_location_entries(location),
        None => Seq::empty(),
    };
    lemma_keys();
    lemma_annotation_parts(finding, action, entries);
    let title = ("title"@, tool_and_rule(finding.tool));
    let all = entries.push(title);
    assert forall|i: int| 0 <= i < all.len() implies plain_key((#[trigger] all[i]).0) by {
        if i < entries.len() {
            assert(all[i] == entries[i]);
        }
    }
    lemma_entry_value(all, "title"@);
    lemma_value_of_push(entries, title, "title"@);
    reveal_strlit("error");
    reveal_strlit("warning");
    reveal_strlit("notice");
    assert("error"@.len() == 5 && "warning"@.len() == 7 && "notice"@.len() == 6);
}

} // verus!
