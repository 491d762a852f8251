//! Paths, as a Unix system reads them.
use crate::json::push_chars;
use crate::order::equal_texts;
use crate::text::{chars_of, string_of};
use vstd::prelude::*;

verus! {

/// What one step of a path says.
pub enum Part {
    Root,
    Current,
    Parent,
    Name(Seq<char>),
}

/// Whether the path begins at the root.
pub open spec fn rooted(s: Seq<char>) -> bool {
    s.len() > 0 && s[0] == '/'
}

/// The end of the piece of `s` that begins at `k`: the next slash, or the end of `s`.
pub open spec fn piece_end(s: Seq<char>, k: int) -> int
    decreases s.len() - k,
{
    if k < 0 || k >= s.len() || s[k] == '/' {
        k
    } else {
        piece_end(s, k + 1)
    }
}

/// What the piece `p` says; nothing where it is empty, or a dot that does not begin the path.
pub open spec fn part_of(p: Seq<char>, first: bool) -> Option<Part> {
    if p.len() == 0 {
        None
    } else if p == seq!['.'] {
        if first {
            Some(Part::Current)
        } else {
            None
        }
    } else if p == seq!['.', '.'] {
        Some(Part::Parent)
    } else {
        Some(Part::Name(p))
    }
}

/// The parts of `s` from the piece that begins at `k` on.
pub open spec fn parts_from(s: Seq<char>, k: int) -> Seq<Part>
    decreases s.len() - k,
{
    if k < 0 || k > s.len() {
        Seq::empty()
    } else {
        let end = piece_end(s, k);
        let rest = if k <= end < s.len() {
            parts_from(s, end + 1)
        } else {
            Seq::empty()
        };
        match part_of(s.subrange(k, end), k == 0) {
            Some(part) => seq![part] + rest,
            None => rest,
        }
    }
}

/// The parts of a path.
pub open spec fn parts(s: Seq<char>) -> Seq<Part> {
    if rooted(s) {
        seq![Part::Root] + parts_from(s, 1)
    } else {
        parts_from(s, 0)
    }
}

/// One step of a path.
#[derive(Clone, Debug, PartialEq, Eq)]
pub enum Component {
    Root,
    Current,
    Parent,
    Name(String),
}

impl View for Component {
    type V = Part;

    open spec fn view(&self) -> Part {
        match self {
            Component::Root => Part::Root,
            Component::Current => Part::Current,
            Component::Parent => Part::Parent,
            Component::Name(name) => Part::Name(name@),
        }
    }
}

/// What the components say.
pub open spec fn part_views(v: Seq<Component>) -> Seq<Part> {
    Seq::new(v.len(), |i: int| v[i]@)
}

fn copy_piece(s: &Vec<char>, from: usize, to: usize) -> (r: Vec<char>)
    requires
        from <= to <= s.len(),
    ensures
        r@ == s@.subrange(from as int, to as int),
{
    let mut out: Vec<char> = Vec::new();
    let mut i: usize = from;
    while i < to
        invariant
            from <= i <= to <= s.len(),
            out@ == s@.subrange(from as int, i as int),
        decreases to - i,
    {
        out.push(s[i]);
        assert(s@.subrange(from as int, i + 1) =~= s@.subrange(from as int, i as int).push(s@[i as int]));
        i = i + 1;
    }
    out
}

/// The steps of a path.
pub fn components(path: &str) -> (r: Vec<Component>)
    ensures
        part_views(r@) == parts(path@),
{
    let s: Vec<char> = chars_of(path);
    let mut out: Vec<Component> = Vec::new();
    let mut k: usize = 0;
    if s.len() > 0 && s[0] == '/' {
        out.push(Component::Root);
        k = 1;
    }
    let ghost whole = parts(path@);
    assert(part_views(out@) + parts_from(s@, k as int) =~= whole);
    loop
        invariant
            k <= s.len(),
            s@ == path@,
            whole == parts(path@),
            part_views(out@) + parts_from(s@, k as int) == whole,
        decreases s.len() - k,
    {
        let mut end: usize = k;
        while end < s.len() && s[end] != '/'
            invariant
                k <= end <= s.len(),
                piece_end(s@, k as int) == piece_end(s@, end as int),
            decreases s.len() - end,
        {
            end = end + 1;
        }
        let piece: Vec<char> = copy_piece(&s, k, end);
        let ghost before = part_views(out@);
        let ghost rest = if end < s.len() {
            parts_from(s@, end + 1)
        } else {
            Seq::empty()
        };
        if piece.len() == 0 {
        } else if piece.len() == 1 && piece[0] == '.' {
            assert(piece@ =~= seq!['.']);
            if k == 0 {
                out.push(Component::Current);
            }
        } else if piece.len() == 2 && piece[0] == '.' && piece[1] == '.' {
            assert(piece@ =~= seq!['.', '.']);
            out.push(Component::Parent);
        } else {
            out.push(Component::Name(string_of(piece.as_slice())));
        }
        proof {
            assert(part_of(piece@, k == 0) matches Some(part) ==> part_views(out@) =~= before.push(part));
            assert(part_of(piece@, k == 0) is None ==> part_views(out@) =~= before);
            assert(part_views(out@) + rest =~= before + parts_from(s@, k as int));
        }
        if end >= s.len() {
            assert(part_views(out@) =~= whole);
            return out;
        }
        k = end + 1;
    }
}

fn same_component(a: &Component, b: &Component) -> (r: bool)
    ensures
        r == (a@ == b@),
{
    match (a, b) {
        (Component::Root, Component::Root) => true,
        (Component::Current, Component::Current) => true,
        (Component::Parent, Component::Parent) => true,
        (Component::Name(x), Component::Name(y)) => equal_texts(x.as_str(), y.as_str()),
        _ => false,
    }
}

/// The path stands in the directory `base`, or is that directory.
pub open spec fn within(path: Seq<char>, base: Seq<char>) -> bool {
    parts(base).is_prefix_of(parts(path))
}

/// Whether the steps begin with those of `base`.
fn begins_with(path: &Vec<Component>, base: &Vec<Component>) -> (r: bool)
    ensures
        r == part_views(base@).is_prefix_of(part_views(path@)),
{
    if base.len() > path.len() {
        return false;
    }
    let mut i: usize = 0;
    while i < base.len()
        invariant
            i <= base.len() <= path.len(),
            forall|j: int| 0 <= j < i ==> (#[trigger] base@[j])@ == path@[j]@,
        decreases base.len() - i,
    {
        if !same_component(&base[i], &path[i]) {
            proof {
                assert(part_views(base@)[i as int] != part_views(path@)[i as int]);
                assert(part_views(path@).subrange(0, part_views(base@).len() as int)[i as int]
                    == part_views(path@)[i as int]);
            }
            return false;
        }
        i = i + 1;
    }
    assert(part_views(path@).subrange(0, part_views(base@).len() as int) =~= part_views(base@));
    true
}

/// Whether the path stands in the directory `base`, or is that directory.
pub fn is_within(path: &str, base: &str) -> (r: bool)
    ensures
        r == within(path@, base@),
{
    begins_with(&components(path), &components(base))
}

/// `camino::Utf8Path::starts_with`, as a Unix system takes paths apart: whether `base` is a prefix of
/// the path. The contract claims that only whole steps of the two paths are compared, that slashes
/// that repeat or end a path count for nothing, and that neither does a dot but at the beginning.
#[verifier::external_body]
pub(crate) fn path_starts_with(path: &str, base: &str) -> (r: bool)
    ensures
        r == within(path@, base@),
{
    camino::Utf8Path::new(path).starts_with(base)
}

/// The path from `base`, step by step, where the path stands in it.
pub open spec fn below(path: Seq<char>, base: Seq<char>) -> Option<Seq<Part>> {
    if within(path, base) {
        Some(parts(path).skip(parts(base).len() as int))
    } else {
        None
    }
}

/// The names of the steps, joined by slashes, from the `k`-th on behind `text`; nothing where a step
/// leaves the directory.
pub open spec fn joined_from(steps: Seq<Part>, k: int, text: Seq<char>) -> Option<Seq<char>>
    decreases steps.len() - k,
{
    if k < 0 || k >= steps.len() {
        Some(text)
    } else {
        match steps[k] {
            Part::Current => joined_from(steps, k + 1, text),
            Part::Name(name) => joined_from(
                steps,
                k + 1,
                if text.len() == 0 {
                    name
                } else {
                    text.push('/') + name
                },
            ),
            _ => None,
        }
    }
}

/// The steps as a relative path: a dot where there are none, and nothing where one leaves the
/// directory.
pub open spec fn relative_text(steps: Seq<Part>) -> Option<Seq<char>> {
    match joined_from(steps, 0, Seq::empty()) {
        None => None,
        Some(text) => if text.len() == 0 {
            Some(seq!['.'])
        } else {
            Some(text)
        },
    }
}

/// The path of a file, relative to the root and with slashes between its names; nothing where it
/// leaves the root.
pub open spec fn normalized_path(filename: Seq<char>, root: Seq<char>) -> Option<Seq<char>> {
    if rooted(filename) {
        match below(filename, root) {
            Some(steps) => relative_text(steps),
            None => None,
        }
    } else {
        relative_text(parts(filename))
    }
}

/// The path of a file, relative to the root and with slashes between its names; nothing where it
/// leaves the root.
pub fn normalize_path(filename: &str, root: &str) -> (r: Option<String>)
    ensures
        match r {
            Some(text) => normalized_path(filename@, root@) == Some(text@),
            None => normalized_path(filename@, root@) is None,
        },
{
    let all: Vec<Component> = components(filename);
    let mut k: usize = 0;
    let ghost steps = parts(filename@);
    if is_rooted(filename) {
        let base: Vec<Component> = components(root);
        if !begins_with(&all, &base) {
            return None;
        }
        k = base.len();
        proof {
            steps = parts(filename@).skip(base.len() as int);
        }
    } else {
        assert(parts(filename@).skip(0) =~= parts(filename@));
    }
    let ghost start = k as int;
    let ghost whole = joined_from(steps, 0, Seq::empty());
    let mut text: Vec<char> = Vec::new();
    assert(text@ =~= Seq::<char>::empty());
    while k < all.len()
        invariant
            start <= k <= all.len(),
            part_views(all@) == parts(filename@),
            steps == parts(filename@).skip(start),
            0 <= start,
            whole == joined_from(steps, 0, Seq::empty()),
            whole == joined_from(steps, k - start, text@),
            normalized_path(filename@, root@) == relative_text(steps),
        decreases all.len() - k,
    {
        assert(steps[k - start] == part_views(all@)[k as int]);
        match &all[k] {
            Component::Current => {},
            Component::Name(name) => {
                if text.len() > 0 {
                    text.push('/');
                }
                let ghost before = text@;
                let chars: Vec<char> = chars_of(name.as_str());
                push_chars(&mut text, chars.as_slice());
                assert(before.len() == 0 ==> text@ =~= name@);
            },
            Component::Root => {
                return None;
            },
            Component::Parent => {
                return None;
            },
        }
        k = k + 1;
    }
    if text.len() == 0 {
        text.push('.');
        assert(text@ =~= seq!['.']);
    }
    Some(string_of(text.as_slice()))
}

/// What one step is written as.
pub open spec fn step_text(step: Part) -> Seq<char> {
    match step {
        Part::Root => seq!['/'],
        Part::Current => seq!['.'],
        Part::Parent => seq!['.', '.'],
        Part::Name(name) => name,
    }
}

/// The steps, with slashes between them.
pub open spec fn steps_text(steps: Seq<Part>) -> Seq<char>
    decreases steps.len(),
{
    if steps.len() == 0 {
        Seq::empty()
    } else if steps.len() == 1 {
        step_text(steps[0])
    } else {
        steps_text(steps.drop_last()).push('/') + step_text(steps.last())
    }
}

/// The path from `base` on, where the path stands in it.
pub open spec fn text_below(path: Seq<char>, base: Seq<char>) -> Option<Seq<char>> {
    match below(path, base) {
        Some(steps) => Some(steps_text(steps)),
        None => None,
    }
}

fn push_step(text: &mut Vec<char>, step: &Component)
    ensures
        final(text)@ == old(text)@ + step_text(step@),
{
    match step {
        Component::Root => {
            text.push('/');
        },
        Component::Current => {
            text.push('.');
        },
        Component::Parent => {
            text.push('.');
            text.push('.');
        },
        Component::Name(name) => {
            let chars: Vec<char> = chars_of(name.as_str());
            push_chars(text, chars.as_slice());
        },
    }
    assert(text@ =~= old(text)@ + step_text(step@));
}

/// The path from `base` on, where the path stands in it.
pub fn strip_base(path: &str, base: &str) -> (r: Option<String>)
    ensures
        match r {
            Some(text) => text_below(path@, base@) == Some(text@),
            None => text_below(path@, base@) is None,
        },
{
    let all: Vec<Component> = components(path);
    let start: Vec<Component> = components(base);
    if !begins_with(&all, &start) {
        return None;
    }
    let ghost steps = parts(path@).skip(start.len() as int);
    let mut text: Vec<char> = Vec::new();
    let mut k: usize = start.len();
    assert(steps.take(0) =~= Seq::empty());
    assert(text@ =~= steps_text(steps.take(0)));
    while k < all.len()
        invariant
            start.len() <= k <= all.len(),
            part_views(all@) == parts(path@),
            steps == parts(path@).skip(start.len() as int),
            text@ == steps_text(steps.take(k - start.len())),
        decreases all.len() - k,
    {
        let ghost done = k - start.len();
        proof {
            assert(steps[done] == part_views(all@)[k as int]);
            assert(steps.take(done + 1).drop_last() =~= steps.take(done));
            assert(steps.take(done + 1).last() == steps[done]);
        }
        if k > start.len() {
            text.push('/');
        }
        push_step(&mut text, &all[k]);
        assert(text@ =~= steps_text(steps.take(done + 1)));
        k = k + 1;
    }
    assert(steps.take(steps.len() as int) =~= steps);
    Some(string_of(text.as_slice()))
}

/// The path that `path` is from `base`: `path` itself where it begins at the root.
pub open spec fn joined_path(base: Seq<char>, path: Seq<char>) -> Seq<char> {
    if rooted(path) || base.len() == 0 {
        path
    } else if base.last() == '/' {
        base + path
    } else {
        base.push('/') + path
    }
}

/// The path that `path` is from `base`.
pub fn join_path(base: &str, path: &str) -> (r: String)
    ensures
        r@ == joined_path(base@, path@),
{
    let mut text: Vec<char> = chars_of(base);
    if is_rooted(path) || text.len() == 0 {
        return path.to_owned();
    }
    if text[text.len() - 1] != '/' {
        text.push('/');
    }
    let chars: Vec<char> = chars_of(path);
    push_chars(&mut text, chars.as_slice());
    string_of(text.as_slice())
}

/// Whether the path begins at the root.
pub fn is_rooted(path: &str) -> (r: bool)
    ensures
        r == rooted(path@),
{
    let s: Vec<char> = chars_of(path);
    s.len() > 0 && s[0] == '/'
}

/// The path is one name alone.
pub open spec fn bare_name(path: Seq<char>) -> bool {
    parts(path).len() == 1 && parts(path)[0] is Name
}

/// Whether the path is one name alone.
pub fn is_bare_program_name(path: &str) -> (r: bool)
    ensures
        r == bare_name(path@),
{
    let all: Vec<Component> = components(path);
    if all.len() != 1 {
        assert(part_views(all@).len() == all.len());
        return false;
    }
    assert(part_views(all@)[0] == all@[0]@);
    match &all[0] {
        Component::Name(_) => true,
        _ => false,
    }
}

/// Steps that never leave the directory give a path whose parts are names alone, or the dot: it
/// begins neither at the root nor with a step up.
pub proof fn law_normalized_path_stays_inside(filename: Seq<char>, root: Seq<char>)
    requires
        normalized_path(filename, root) is Some,
    ensures
        ({
            let steps = if rooted(filename) {
                below(filename, root).unwrap()
            } else {
                parts(filename)
            };
            forall|i: int| 0 <= i < steps.len() ==> (#[trigger] steps[i] is Name || steps[i] is Current)
        }),
        rooted(filename) ==> within(filename, root),
{
    let steps = if rooted(filename) {
        below(filename, root).unwrap()
    } else {
        parts(filename)
    };
    lemma_joined_steps(steps, 0, Seq::empty());
}

proof fn lemma_joined_steps(steps: Seq<Part>, k: int, text: Seq<char>)
    requires
        0 <= k <= steps.len(),
        joined_from(steps, k, text) is Some,
    ensures
        forall|i: int| k <= i < steps.len() ==> (#[trigger] steps[i] is Name || steps[i] is Current),
    decreases steps.len() - k,
{
    if k < steps.len() {
        match steps[k] {
            Part::Current => lemma_joined_steps(steps, k + 1, text),
            Part::Name(name) => lemma_joined_steps(
                steps,
                k + 1,
                if text.len() == 0 {
                    name
                } else {
                    text.push('/') + name
                },
            ),
            _ => {},
        }
    }
}

} // verus!
