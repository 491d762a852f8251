//! Where in the repository a diagnostic stands.
use super::cargo_json::{span_ordered, RustcSpan};
use super::error::{Fault, ProviderError};
use super::scope::{path_is_in_scope, CargoScope};
use super::target::holds_any;
use crate::model::{Location, Position};
use crate::path::{is_rooted, is_within, join_path, joined_path, rooted, strip_base, text_below, within};
use crate::text::{chars_of, is_text_at, push_text, string_of, text_at};
use vstd::prelude::*;

verus! {

/// What the diagnostics of a session are placed in.
#[derive(Clone, Debug, PartialEq, Eq)]
pub struct DiagnosticScope {
    pub cargo: CargoScope,
    pub repository_root: String,
    pub workspace_root: String,
    pub verification_target: Option<String>,
}

/// What the system knows of a file.
#[derive(Clone, Debug, PartialEq, Eq)]
pub enum FileFacts {
    /// There is none.
    Missing,
    /// It cannot be resolved, for this reason.
    Unreadable(String),
    /// Its canonical path.
    At(String),
}

/// What the system knows of the path that a span names.
#[derive(Debug, PartialEq, Eq)]
pub struct PathFacts {
    /// The canonical path of the root of the scope, or why it cannot be resolved.
    pub scope_root: Result<String, String>,
    /// The canonical path of an absolute path; none, where it cannot be resolved.
    pub canonical: Option<String>,
    /// A relative path is one that records can hold.
    pub relative_accepted: bool,
    /// A relative path names a file below the workspace.
    pub in_workspace: bool,
    /// The file of a relative path below the repository.
    pub candidate: FileFacts,
    /// The path that results is one that records can hold.
    pub accepted: bool,
}

/// What the system knows of a path that the scope does not hold.
#[derive(Debug, PartialEq, Eq)]
pub struct SiblingFacts {
    /// A relative path is one that records can hold.
    pub relative_accepted: bool,
    /// The file that the path names.
    pub candidate: FileFacts,
    /// The canonical path of the root of the scope, or why it cannot be resolved.
    pub scope_root: Result<String, String>,
}

/// What is known of the place that a span names, beside the span.
#[derive(Debug, PartialEq, Eq)]
pub struct SpanFacts {
    pub path: PathFacts,
    /// What the record contract finds wrong with the location.
    pub violation: Option<String>,
    pub sibling: SiblingFacts,
}

pub const SPAN_RULE: &'static str = "rustc span position must be positive and end must not precede start";

/// What is wrong with a number of a span.
pub open spec fn number_fault(value: u64, field: Seq<char>) -> Option<Fault> {
    if value > u32::MAX {
        Some(Fault::Model(field + " exceeds u32"@))
    } else {
        None
    }
}

/// What is wrong with a span.
pub open spec fn span_fault(span: RustcSpan) -> Option<Fault> {
    if span.line_start == 0 || span.line_end == 0 || span.column_start == 0 || span.column_end == 0 || !span_ordered(
        span,
    ) {
        Some(Fault::Model(SPAN_RULE@))
    } else if span.line_start > u32::MAX {
        number_fault(span.line_start, "line_start"@)
    } else if span.line_end > u32::MAX {
        number_fault(span.line_end, "line_end"@)
    } else if span.column_start > u32::MAX {
        number_fault(span.column_start, "column_start"@)
    } else {
        number_fault(span.column_end, "column_end"@)
    }
}

/// The number as one of a position.
pub fn to_u32(value: u64, field: &str) -> (r: Result<u32, ProviderError>)
    ensures
        match number_fault(value, field@) {
            Some(fault) => r matches Err(error) && error@ == fault,
            None => r == Ok::<u32, ProviderError>(value as u32),
        },
{
    if value > u32::MAX as u64 {
        let mut out: Vec<char> = Vec::new();
        push_text(&mut out, field);
        push_text(&mut out, " exceeds u32");
        assert(out@ =~= field@ + " exceeds u32"@);
        return Err(ProviderError::Model(string_of(out.as_slice())));
    }
    Ok(value as u32)
}

/// Checks that the span stands where positions can.
pub fn validate_rustc_span(span: &RustcSpan) -> (r: Result<(), ProviderError>)
    ensures
        match span_fault(*span) {
            Some(fault) => r matches Err(error) && error@ == fault,
            None => r is Ok,
        },
{
    if span.line_start == 0 || span.line_end == 0 || span.column_start == 0 || span.column_end == 0 || span.line_end
        < span.line_start || span.line_end == span.line_start && span.column_end < span.column_start {
        return Err(ProviderError::model(SPAN_RULE));
    }
    if let Err(error) = to_u32(span.line_start, "line_start") {
        return Err(error);
    }
    if let Err(error) = to_u32(span.line_end, "line_end") {
        return Err(error);
    }
    if let Err(error) = to_u32(span.column_start, "column_start") {
        return Err(error);
    }
    if let Err(error) = to_u32(span.column_end, "column_end") {
        return Err(error);
    }
    Ok(())
}

/// The path is written in a form that is never taken.
pub open spec fn foreign_form(raw: Seq<char>) -> bool {
    raw.contains('\\') || raw.contains('\0') || exists|i: int| text_at(raw, i, "://"@)
}

/// Whether `w` stands anywhere in the text.
pub fn holds_text(text: &str, w: &str) -> (r: bool)
    ensures
        r == exists|i: int| text_at(text@, i, w@),
{
    let s: Vec<char> = chars_of(text);
    let mut i: usize = 0;
    while i < s.len()
        invariant
            i <= s.len(),
            s@ == text@,
            forall|k: int| 0 <= k < i ==> !text_at(text@, k, w@),
        decreases s.len() - i,
    {
        if is_text_at(s.as_slice(), i, w) {
            return true;
        }
        i = i + 1;
    }
    is_text_at(s.as_slice(), i, w)
}

/// Whether the path is written in a form that is never taken.
fn is_foreign_form(raw: &str) -> (r: bool)
    ensures
        r == foreign_form(raw@),
{
    holds_any(raw, '\\', '\0') || holds_text(raw, "://")
}

/// The path without the steps at its beginning that stay where they are.
pub open spec fn without_dots(raw: Seq<char>) -> Seq<char>
    decreases raw.len(),
{
    if raw.len() >= 2 && raw[0] == '.' && raw[1] == '/' {
        without_dots(raw.skip(2))
    } else {
        raw
    }
}

/// The path without the steps at its beginning that stay where they are.
pub fn strip_dots(raw: &str) -> (r: String)
    ensures
        r@ == without_dots(raw@),
{
    let s: Vec<char> = chars_of(raw);
    let mut k: usize = 0;
    assert(raw@.skip(0) =~= raw@);
    while s.len() - k >= 2 && s[k] == '.' && s[k + 1] == '/'
        invariant
            k <= s.len(),
            s@ == raw@,
            without_dots(raw@) == without_dots(raw@.skip(k as int)),
        decreases s.len() - k,
    {
        assert(raw@.skip(k as int).skip(2) =~= raw@.skip(k + 2));
        k = k + 2;
    }
    let mut out: Vec<char> = Vec::new();
    let ghost start = k as int;
    let ghost rest = raw@.skip(start);
    assert(without_dots(rest) == rest);
    while k < s.len()
        invariant
            start <= k <= s.len(),
            0 <= start,
            s@ == raw@,
            rest == raw@.skip(start),
            out@ == rest.take(k - start),
        decreases s.len() - k,
    {
        out.push(s[k]);
        assert(rest.take(k + 1 - start) =~= rest.take(k - start).push(s@[k as int]));
        k = k + 1;
    }
    assert(rest.take(rest.len() as int) =~= rest);
    string_of(out.as_slice())
}

/// Where below the repository a relative path stands: as it is, if the scope covers that, or else
/// from the workspace.
pub open spec fn repository_path(raw: Seq<char>, scope: DiagnosticScope, in_workspace: bool) -> Option<Seq<char>> {
    let relative = without_dots(raw);
    if scope.cargo@.covers(relative) {
        Some(relative)
    } else {
        match text_below(scope.workspace_root@, scope.repository_root@) {
            None => None,
            Some(prefix) => {
                let from_workspace = joined_path(prefix, relative);
                if scope.cargo@.covers(from_workspace) && in_workspace {
                    Some(from_workspace)
                } else {
                    None
                }
            },
        }
    }
}

/// The path of a span's file below the repository, or why it has none.
pub open spec fn placed_path(raw: Seq<char>, scope: DiagnosticScope, facts: PathFacts) -> Result<Seq<char>, Fault> {
    let refused = Err(Fault::Path(raw));
    if foreign_form(raw) {
        refused
    } else {
        match facts.scope_root {
            Err(text) => Err(Fault::Io(text@)),
            Ok(root) => if rooted(raw) {
                match facts.canonical {
                    None => refused,
                    Some(canonical) => match text_below(canonical@, scope.repository_root@) {
                        None => refused,
                        Some(path) => if within(canonical@, root@) && facts.accepted {
                            Ok(path)
                        } else {
                            refused
                        },
                    },
                }
            } else if !facts.relative_accepted {
                refused
            } else {
                match repository_path(raw, scope, facts.in_workspace) {
                    None => refused,
                    Some(path) => {
                        let stays = match facts.candidate {
                            FileFacts::Missing => true,
                            FileFacts::Unreadable(_) => false,
                            FileFacts::At(canonical) => within(canonical@, root@),
                        };
                        if stays && facts.accepted {
                            Ok(path)
                        } else {
                            refused
                        }
                    },
                }
            },
        }
    }
}

/// The path below the repository that a relative path stands for, where it is in scope.
pub fn place_in_repository(raw: &str, scope: &DiagnosticScope, in_workspace: bool) -> (r: Option<String>)
    ensures
        match r {
            Some(path) => repository_path(raw@, *scope, in_workspace) == Some(path@),
            None => repository_path(raw@, *scope, in_workspace) is None,
        },
{
    let relative: String = strip_dots(raw);
    if path_is_in_scope(relative.as_str(), &scope.cargo) {
        return Some(relative);
    }
    match strip_base(scope.workspace_root.as_str(), scope.repository_root.as_str()) {
        None => None,
        Some(prefix) => {
            let from_workspace: String = join_path(prefix.as_str(), relative.as_str());
            if path_is_in_scope(from_workspace.as_str(), &scope.cargo) && in_workspace {
                Some(from_workspace)
            } else {
                None
            }
        },
    }
}

/// The path of a span's file below the repository.
pub fn normalize_path(raw: &str, scope: &DiagnosticScope, facts: &PathFacts) -> (r: Result<String, ProviderError>)
    ensures
        match placed_path(raw@, *scope, *facts) {
            Ok(path) => r matches Ok(text) && text@ == path,
            Err(fault) => r matches Err(error) && error@ == fault,
        },
{
    if is_foreign_form(raw) {
        return Err(ProviderError::path(raw));
    }
    let root: &str = match &facts.scope_root {
        Err(text) => {
            return Err(ProviderError::Io(text.clone()));
        },
        Ok(root) => root.as_str(),
    };
    if is_rooted(raw) {
        let canonical: &str = match &facts.canonical {
            None => {
                return Err(ProviderError::path(raw));
            },
            Some(path) => path.as_str(),
        };
        return match strip_base(canonical, scope.repository_root.as_str()) {
            None => Err(ProviderError::path(raw)),
            Some(path) => {
                if is_within(canonical, root) && facts.accepted {
                    Ok(path)
                } else {
                    Err(ProviderError::path(raw))
                }
            },
        };
    }
    if !facts.relative_accepted {
        return Err(ProviderError::path(raw));
    }
    match place_in_repository(raw, scope, facts.in_workspace) {
        None => Err(ProviderError::path(raw)),
        Some(path) => {
            let stays: bool = match &facts.candidate {
                FileFacts::Missing => true,
                FileFacts::Unreadable(_) => false,
                FileFacts::At(canonical) => is_within(canonical.as_str(), root),
            };
            if stays && facts.accepted {
                Ok(path)
            } else {
                Err(ProviderError::path(raw))
            }
        },
    }
}

/// The path names a file of the repository that the scope does not hold.
pub open spec fn is_sibling(raw: Seq<char>, scope: DiagnosticScope, facts: SiblingFacts) -> Result<bool, Fault> {
    if foreign_form(raw) || !rooted(raw) && !facts.relative_accepted {
        Ok(false)
    } else {
        match facts.candidate {
            FileFacts::Missing => Ok(false),
            FileFacts::Unreadable(text) => Err(Fault::Io(text@)),
            FileFacts::At(canonical) => if !within(canonical@, scope.repository_root@) {
                Ok(false)
            } else {
                match facts.scope_root {
                    Err(text) => Err(Fault::Io(text@)),
                    Ok(root) => Ok(!within(canonical@, root@)),
                }
            },
        }
    }
}

/// Whether the path names a file of the repository that the scope does not hold.
pub fn is_existing_repository_sibling(raw: &str, scope: &DiagnosticScope, facts: &SiblingFacts) -> (r: Result<
    bool,
    ProviderError,
>)
    ensures
        match is_sibling(raw@, *scope, *facts) {
            Ok(sibling) => r == Ok::<bool, ProviderError>(sibling),
            Err(fault) => r matches Err(error) && error@ == fault,
        },
{
    if is_foreign_form(raw) || !is_rooted(raw) && !facts.relative_accepted {
        return Ok(false);
    }
    match &facts.candidate {
        FileFacts::Missing => Ok(false),
        FileFacts::Unreadable(text) => Err(ProviderError::Io(text.clone())),
        FileFacts::At(canonical) => {
            if !is_within(canonical.as_str(), scope.repository_root.as_str()) {
                return Ok(false);
            }
            match &facts.scope_root {
                Err(text) => Err(ProviderError::Io(text.clone())),
                Ok(root) => Ok(!is_within(canonical.as_str(), root.as_str())),
            }
        },
    }
}

/// A place in the repository.
pub struct Place {
    pub path: Seq<char>,
    pub start: Position,
    pub end: Position,
}

/// The place of a span's file, or why it has none.
pub open spec fn place_of(span: RustcSpan, scope: DiagnosticScope, facts: SpanFacts) -> Result<Place, Fault> {
    match span_fault(span) {
        Some(fault) => Err(fault),
        None => match placed_path(span.file_name@, scope, facts.path) {
            Err(fault) => Err(fault),
            Ok(path) => match facts.violation {
                Some(text) => Err(Fault::Model(text@)),
                None => Ok(
                    Place {
                        path,
                        start: Position { line: span.line_start as u32, column: span.column_start as u32 },
                        end: Position { line: span.line_end as u32, column: span.column_end as u32 },
                    },
                ),
            },
        },
    }
}

/// The place of a span; none, where its file is one of the repository that the scope does not hold.
pub open spec fn scoped_place(span: RustcSpan, scope: DiagnosticScope, facts: SpanFacts) -> Result<
    Option<Place>,
    Fault,
> {
    match place_of(span, scope, facts) {
        Ok(place) => Ok(Some(place)),
        Err(fault) => if fault is Path {
            match is_sibling(span.file_name@, scope, facts.sibling) {
                Err(other) => Err(other),
                Ok(true) => Ok(None),
                Ok(false) => Err(fault),
            }
        } else {
            Err(fault)
        },
    }
}

/// The location says what the place is.
pub open spec fn is_location_of(location: Location, place: Place) -> bool {
    location.path@ == place.path && location.start == place.start && location.end == Some(place.end)
}

/// The location of a span.
pub fn location(span: &RustcSpan, scope: &DiagnosticScope, facts: &SpanFacts) -> (r: Result<Location, ProviderError>)
    ensures
        match place_of(*span, *scope, *facts) {
            Ok(place) => r matches Ok(location) && is_location_of(location, place),
            Err(fault) => r matches Err(error) && error@ == fault,
        },
{
    if let Err(error) = validate_rustc_span(span) {
        return Err(error);
    }
    let path: String = match normalize_path(span.file_name.as_str(), scope, &facts.path) {
        Err(error) => {
            return Err(error);
        },
        Ok(path) => path,
    };
    if let Some(text) = &facts.violation {
        return Err(ProviderError::Model(text.clone()));
    }
    Ok(
        Location {
            path,
            start: Position { line: span.line_start as u32, column: span.column_start as u32 },
            end: Some(Position { line: span.line_end as u32, column: span.column_end as u32 }),
        },
    )
}

/// The location of a span; none, where its file is one of the repository that the scope does not
/// hold.
pub fn scoped_location(span: &RustcSpan, scope: &DiagnosticScope, facts: &SpanFacts) -> (r: Result<
    Option<Location>,
    ProviderError,
>)
    ensures
        match scoped_place(*span, *scope, *facts) {
            Ok(Some(place)) => r matches Ok(Some(location)) && is_location_of(location, place),
            Ok(None) => r matches Ok(None),
            Err(fault) => r matches Err(error) && error@ == fault,
        },
{
    match location(span, scope, facts) {
        Ok(location) => Ok(Some(location)),
        Err(error) => {
            if let ProviderError::Path(_) = &error {
                match is_existing_repository_sibling(span.file_name.as_str(), scope, &facts.sibling) {
                    Err(other) => {
                        return Err(other);
                    },
                    Ok(true) => {
                        return Ok(None);
                    },
                    Ok(false) => {},
                }
            }
            Err(error)
        },
    }
}

/// A file that is placed stands in the repository, and its canonical path in the root of the scope.
pub proof fn law_placed_files_stay_in_scope(raw: Seq<char>, scope: DiagnosticScope, facts: PathFacts)
    requires
        placed_path(raw, scope, facts) is Ok,
    ensures
        facts.scope_root is Ok,
        rooted(raw) ==> (facts.canonical matches Some(path) && within(path@, scope.repository_root@) && within(
            path@,
            facts.scope_root->Ok_0@,
        )),
        !rooted(raw) ==> {
            &&& scope.cargo@.covers(placed_path(raw, scope, facts)->Ok_0)
            &&& facts.candidate matches FileFacts::At(path) ==> within(path@, facts.scope_root->Ok_0@)
        },
{
}

} // verus!
