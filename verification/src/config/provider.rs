//! A provider that is configured.
use super::{
    fault, invalid, judged, nul_fault, numbered, numbered_text, reports, validate_no_nul, ConfigError, Fault,
};
use crate::order::{arranged, compare_texts, lemma_single_key, sort, Keyed, Placement};
use crate::process::invocation::texts;
use crate::text::{utf8_len, white_space};
use vstd::prelude::*;

verus! {

/// An executable invocation. `program` is run directly; it is never parsed as a shell command and
/// `argv` is never joined into a string.
#[derive(Clone, Debug, PartialEq, Eq)]
pub struct ProviderConfig {
    pub adapter_id: String,
    pub program: String,
    pub argv: Vec<String>,
    pub required: bool,
    pub required_capabilities: Vec<String>,
    pub optional_capabilities: Vec<String>,
}

/// What a `ProviderConfig` holds.
pub struct Provider {
    pub adapter_id: Seq<char>,
    pub program: Seq<char>,
    pub argv: Seq<Seq<char>>,
    pub required: bool,
    pub required_capabilities: Seq<Seq<char>>,
    pub optional_capabilities: Seq<Seq<char>>,
}

impl View for ProviderConfig {
    type V = Provider;

    open spec fn view(&self) -> Provider {
        Provider {
            adapter_id: self.adapter_id@,
            program: self.program@,
            argv: texts(self.argv@),
            required: self.required,
            required_capabilities: texts(self.required_capabilities@),
            optional_capabilities: texts(self.optional_capabilities@),
        }
    }
}

impl Keyed for ProviderConfig {
    open spec fn key(&self) -> Seq<Seq<char>> {
        seq![self.adapter_id@]
    }

    fn compare(&self, other: &Self) -> (r: Placement) {
        proof {
            lemma_single_key(self.adapter_id@, other.adapter_id@);
        }
        compare_texts(self.adapter_id.as_str(), other.adapter_id.as_str())
    }
}

/// The bytes of all the texts together.
pub open spec fn total_bytes(argv: Seq<Seq<char>>) -> nat
    decreases argv.len(),
{
    if argv.len() == 0 {
        0
    } else {
        total_bytes(argv.drop_last()) + utf8_len(argv.last())
    }
}

/// What is wrong with the arguments from the `k`-th on, each taken by itself.
pub open spec fn argv_fault(argv: Seq<Seq<char>>, k: int) -> Option<Fault>
    decreases argv.len() - k,
{
    if k < 0 || k >= argv.len() {
        None
    } else {
        let field = numbered("providers.argv["@, k as nat, "]"@);
        if argv[k].contains('\0') {
            nul_fault(field, argv[k])
        } else if argv[k].len() > 4096 {
            fault(field, "must contain at most 4096 characters"@)
        } else {
            argv_fault(argv, k + 1)
        }
    }
}

/// No text stands twice in the two lists together.
pub open spec fn disjoint(required: Seq<Seq<char>>, optional: Seq<Seq<char>>) -> bool {
    forall|i: int, j: int|
        0 <= i < j < required.len() + optional.len() ==> (#[trigger] (required + optional)[i]) != (
        #[trigger] (required + optional)[j])
}

pub open spec fn capabilities_fault(required: Seq<Seq<char>>, optional: Seq<Seq<char>>) -> Option<Fault> {
    if required.len() > 64 || optional.len() > 64 {
        fault("providers.capabilities"@, "each capability list must contain at most 64 values"@)
    } else if !disjoint(required, optional) {
        fault(
            "providers.capabilities"@,
            "required and optional capabilities must be unique and disjoint"@,
        )
    } else {
        None
    }
}

impl Provider {
    /// White space stands at neither end of the program, and it is not empty.
    pub open spec fn program_trimmed(self) -> bool {
        self.program.len() > 0 && !white_space(self.program[0]) && !white_space(self.program.last())
    }

    /// What is wrong with the provider.
    pub open spec fn fault(self) -> Option<Fault> {
        if !self.program_trimmed() {
            fault("providers.program"@, "must not be empty or have surrounding whitespace"@)
        } else if self.program.len() > 4096 {
            fault("providers.program"@, "must contain at most 4096 characters"@)
        } else if self.program.contains('\0') {
            nul_fault("providers.program"@, self.program)
        } else if self.argv.len() > 256 {
            fault("providers.argv"@, "must contain at most 256 arguments"@)
        } else if argv_fault(self.argv, 0) is Some {
            argv_fault(self.argv, 0)
        } else if total_bytes(self.argv) > 65_536 {
            fault("providers.argv"@, "aggregate byte count must not exceed 65536"@)
        } else {
            capabilities_fault(self.required_capabilities, self.optional_capabilities)
        }
    }
}

/// `b` is `a` with its capabilities sorted.
pub open spec fn provider_sorted(a: ProviderConfig, b: ProviderConfig) -> bool {
    &&& b.adapter_id == a.adapter_id
    &&& b.program == a.program
    &&& b.argv == a.argv
    &&& b.required == a.required
    &&& b.required_capabilities@ == arranged(a.required_capabilities@)
    &&& b.optional_capabilities@ == arranged(a.optional_capabilities@)
}

fn trimmed(value: &str) -> (r: bool)
    ensures
        r == (value@.len() > 0 && !white_space(value@[0]) && !white_space(value@.last())),
{
    let s: Vec<char> = crate::text::chars_of(value);
    s.len() > 0 && !s[0].is_whitespace() && !s[s.len() - 1].is_whitespace()
}

fn argv_bounds(argv: &Vec<String>) -> (r: Result<bool, ConfigError>)
    requires
        argv.len() <= 256,
    ensures
        match r {
            Ok(fits) => argv_fault(texts(argv@), 0) is None && fits == (total_bytes(texts(argv@)) <= 65_536),
            Err(e) => argv_fault(texts(argv@), 0) matches Some(f) && reports(e, f),
        },
{
    let ghost all = texts(argv@);
    let mut bytes: usize = 0;
    let mut fits: bool = true;
    let mut i: usize = 0;
    while i < argv.len()
        invariant
            i <= argv.len() <= 256,
            all == texts(argv@),
            argv_fault(all, 0) == argv_fault(all, i as int),
            fits ==> bytes == total_bytes(all.take(i as int)),
            fits == (total_bytes(all.take(i as int)) <= 65_536),
        decreases argv.len() - i,
    {
        let argument: &str = argv[i].as_str();
        assert(all[i as int] == argument@);
        let field: String = numbered_text("providers.argv[", i as u64, "]");
        match validate_no_nul(field.as_str(), argument) {
            Ok(()) => {},
            Err(e) => {
                return Err(e);
            },
        }
        let chars: usize = argument.unicode_len();
        if chars > 4096 {
            return Err(invalid(field.as_str(), "must contain at most 4096 characters"));
        }
        let width: usize = argument.as_bytes().len();
        proof {
            assert(all.take(i + 1).drop_last() =~= all.take(i as int));
            assert(all.take(i + 1).last() == argument@);
        }
        if fits {
            if width > 65_536 - bytes {
                fits = false;
            } else {
                bytes = bytes + width;
            }
        }
        i = i + 1;
    }
    assert(all.take(all.len() as int) =~= all);
    Ok(fits)
}

/// Whether no capability stands twice in the two lists together.
fn capabilities_disjoint(required: &Vec<String>, optional: &Vec<String>) -> (r: bool)
    requires
        required.len() <= 64,
        optional.len() <= 64,
    ensures
        r == disjoint(texts(required@), texts(optional@)),
{
    let n: usize = required.len();
    let m: usize = optional.len();
    let ghost all = texts(required@) + texts(optional@);
    let mut j: usize = 0;
    while j < n + m
        invariant
            n == required.len(),
            m == optional.len(),
            n <= 64,
            m <= 64,
            j <= n + m,
            all == texts(required@) + texts(optional@),
            all.len() == n + m,
            forall|a: int, b: int| 0 <= a < b < j ==> (#[trigger] all[a]) != (#[trigger] all[b]),
        decreases n + m - j,
    {
        let right: &str = if j < n {
            required[j].as_str()
        } else {
            optional[j - n].as_str()
        };
        assert(right@ == all[j as int]);
        let mut i: usize = 0;
        while i < j
            invariant
                n == required.len(),
                m == optional.len(),
                i <= j < n + m,
                all == texts(required@) + texts(optional@),
                right@ == all[j as int],
                forall|a: int| 0 <= a < i ==> (#[trigger] all[a]) != all[j as int],
            decreases j - i,
        {
            let left: &str = if i < n {
                required[i].as_str()
            } else {
                optional[i - n].as_str()
            };
            assert(left@ == all[i as int]);
            if crate::order::equal_texts(left, right) {
                return false;
            }
            i = i + 1;
        }
        j = j + 1;
    }
    true
}

impl ProviderConfig {
    pub fn validate(&self) -> (r: Result<(), ConfigError>)
        ensures
            judged(r, self@.fault()),
    {
        if !trimmed(self.program.as_str()) {
            return Err(invalid("providers.program", "must not be empty or have surrounding whitespace"));
        }
        if self.program.as_str().unicode_len() > 4096 {
            return Err(invalid("providers.program", "must contain at most 4096 characters"));
        }
        match validate_no_nul("providers.program", self.program.as_str()) {
            Ok(()) => {},
            Err(e) => {
                return Err(e);
            },
        }
        if self.argv.len() > 256 {
            return Err(invalid("providers.argv", "must contain at most 256 arguments"));
        }
        match argv_bounds(&self.argv) {
            Ok(fits) => {
                if !fits {
                    return Err(invalid("providers.argv", "aggregate byte count must not exceed 65536"));
                }
            },
            Err(e) => {
                return Err(e);
            },
        }
        if self.required_capabilities.len() > 64 || self.optional_capabilities.len() > 64 {
            return Err(
                invalid("providers.capabilities", "each capability list must contain at most 64 values"),
            );
        }
        if !capabilities_disjoint(&self.required_capabilities, &self.optional_capabilities) {
            return Err(
                invalid(
                    "providers.capabilities",
                    "required and optional capabilities must be unique and disjoint",
                ),
            );
        }
        Ok(())
    }

    /// Sorts the capabilities. Everything else stays.
    pub fn sort_capabilities(&mut self)
        ensures
            provider_sorted(*old(self), *final(self)),
    {
        sort(&mut self.required_capabilities);
        sort(&mut self.optional_capabilities);
    }
}

} // verus!
