//! Which configurations are accepted.
use super::{text_fault, Fault, RuntimeLimits};
use super::provider::{argv_fault, disjoint, total_bytes, Provider, ProviderConfig};
use super::runtime::{
    invocation_of, providers_fault, repeats, rules_fault, ClassificationRuleConfig, EngineVerdict, NativeRuleId,
    RuntimeConfig,
};
use crate::order::{distinct, Keyed};
use crate::process::limits::request_limits;
use crate::text::{utf8_len, white_space};
use vstd::prelude::*;
use vstd::utf8::*;

verus! {

/// A text of one line: of that many characters, without NUL, with white space only as single spaces between
/// other characters.
pub open spec fn plain_text(s: Seq<char>, maximum: int) -> bool {
    &&& 1 <= s.len() <= maximum
    &&& forall|i: int| 0 <= i < s.len() ==> #[trigger] s[i] != '\0'
    &&& forall|i: int|
        0 <= i < s.len() && white_space(#[trigger] s[i]) ==> s[i] == ' ' && 0 < i < s.len() - 1 && !white_space(
            s[i + 1],
        )
}

/// The bytes of the texts together, from the front.
pub open spec fn bytes_together(texts: Seq<Seq<char>>) -> nat
    decreases texts.len(),
{
    if texts.len() == 0 {
        0
    } else {
        utf8_len(texts[0]) + bytes_together(texts.skip(1))
    }
}

/// A provider that can be started: a program to run, arguments that a command line takes, and capabilities
/// that are each named once.
pub open spec fn startable(p: Provider) -> bool {
    &&& 1 <= p.program.len() <= 4096
    &&& !white_space(p.program[0]) && !white_space(p.program[p.program.len() - 1])
    &&& forall|i: int| 0 <= i < p.program.len() ==> #[trigger] p.program[i] != '\0'
    &&& p.argv.len() <= 256
    &&& forall|k: int| 0 <= k < p.argv.len() ==> (#[trigger] p.argv[k]).len() <= 4096 && !p.argv[k].contains('\0')
    &&& bytes_together(p.argv) <= 65536
    &&& p.required_capabilities.len() <= 64
    &&& p.optional_capabilities.len() <= 64
    &&& p.required_capabilities.no_duplicates()
    &&& p.optional_capabilities.no_duplicates()
    &&& forall|i: int, j: int|
        0 <= i < p.required_capabilities.len() && 0 <= j < p.optional_capabilities.len()
            ==> #[trigger] p.required_capabilities[i] != #[trigger] p.optional_capabilities[j]
}

/// A rule that can classify: texts that fit and a taxonomy that the engine knows.
pub open spec fn usable(rule: ClassificationRuleConfig, verdict: EngineVerdict) -> bool {
    &&& plain_text(rule.id@, 128)
    &&& plain_text(rule.tool_name@, 64)
    &&& rule.tool_version matches Some(version) ==> plain_text(version@, 64)
    &&& rule.native_rule_id matches NativeRuleId::Exact(value) ==> plain_text(value@, 128)
    &&& rule.source < verdict.valid_taxonomies.len() && verdict.valid_taxonomies@[rule.source as int]
}

/// A run that can be made: an engine, 1 to 256 targets and 1 to 64 providers, none of them twice and one of
/// the providers required, limits under their ceilings, a place for the output, and rules that the engine
/// takes.
pub open spec fn runnable(config: RuntimeConfig, verdict: EngineVerdict) -> bool {
    &&& plain_text(config.engine.version@, 64)
    &&& 1 <= config.repository.targets.len() <= 256
    &&& forall|i: int, j: int|
        0 <= i < j < config.repository.targets.len() ==> (#[trigger] config.repository.targets@[i])@ != (
        #[trigger] config.repository.targets@[j])@
    &&& 1 <= config.providers.len() <= 64
    &&& forall|k: int| 0 <= k < config.providers.len() ==> startable(#[trigger] config.providers@[k]@)
    &&& forall|i: int, j: int|
        0 <= i < j < config.providers.len() ==> (#[trigger] config.providers@[i]).adapter_id@ != (
        #[trigger] config.providers@[j]).adapter_id@
    &&& exists|k: int| 0 <= k < config.providers.len() && (#[trigger] config.providers@[k]).required
    &&& 1 <= config.limits.timeout_ms <= 600_000
    &&& config.limits.max_stdout_bytes <= 16_777_216
    &&& config.limits.max_stderr_bytes <= 4_194_304
    &&& config.limits.max_evidence_bytes <= 1_048_576
    &&& config.limits.max_events <= 10_000
    &&& config.output.path matches Some(path) ==> path@ != seq!['.']
    &&& config.classification.rules.len() <= verdict.max_classification_rules
    &&& forall|k: int| 0 <= k < config.classification.rules.len() ==> usable(#[trigger] config.classification.rules@[k], verdict)
    &&& forall|i: int, j: int|
        0 <= i < j < config.classification.rules.len() ==> (#[trigger] config.classification.rules@[i]).id@ != (
        #[trigger] config.classification.rules@[j]).id@
    &&& verdict.valid_policy
}

proof fn lemma_plain_text(field: Seq<char>, s: Seq<char>, maximum: nat)
    ensures
        text_fault(field, s, 1, maximum) is None <==> plain_text(s, maximum as int),
{
    if plain_text(s, maximum as int) {
        if s.contains('\0') {
            let i = choose|i: int| 0 <= i < s.len() && s[i] == '\0';
            assert(s[i] != '\0');
        }
    }
    if text_fault(field, s, 1, maximum) is None {
        assert forall|i: int| 0 <= i < s.len() implies #[trigger] s[i] != '\0' by {
            assert(!s.contains('\0'));
        }
    }
}

proof fn lemma_bytes_push(texts: Seq<Seq<char>>)
    ensures
        bytes_together(texts) == total_bytes(texts),
    decreases texts.len(),
{
    if texts.len() > 0 {
        if texts.len() == 1 {
            assert(texts.skip(1) =~= Seq::empty());
            assert(texts.drop_last() =~= Seq::empty());
            assert(bytes_together(texts.skip(1)) == 0);
            assert(total_bytes(texts.drop_last()) == 0);
        } else {
            lemma_bytes_push(texts.skip(1));
            lemma_bytes_push(texts.drop_last());
            lemma_bytes_push(texts.skip(1).drop_last());
            assert(texts.skip(1).drop_last() =~= texts.drop_last().skip(1));
            assert(texts.skip(1).last() == texts.last());
            assert(texts.drop_last()[0] == texts[0]);
        }
    }
}

proof fn lemma_argv(argv: Seq<Seq<char>>, k: int)
    requires
        0 <= k <= argv.len(),
    ensures
        argv_fault(argv, k) is None <==> forall|j: int|
            k <= j < argv.len() ==> (#[trigger] argv[j]).len() <= 4096 && !argv[j].contains('\0'),
    decreases argv.len() - k,
{
    if k < argv.len() {
        lemma_argv(argv, k + 1);
        if argv[k].len() <= 4096 && !argv[k].contains('\0') && argv_fault(argv, k + 1) is None {
            assert forall|j: int| k <= j < argv.len() implies (#[trigger] argv[j]).len() <= 4096 && !argv[j].contains(
                '\0',
            ) by {
                assert(j == k || j >= k + 1);
            }
        }
    }
}

proof fn lemma_apart(a: Seq<Seq<char>>, b: Seq<Seq<char>>)
    ensures
        disjoint(a, b) <==> a.no_duplicates() && b.no_duplicates() && forall|i: int, j: int|
            0 <= i < a.len() && 0 <= j < b.len() ==> #[trigger] a[i] != #[trigger] b[j],
{
    let all = a + b;
    if disjoint(a, b) {
        assert forall|i: int, j: int| 0 <= i < a.len() && 0 <= j < a.len() && i != j implies a[i] != a[j] by {
            assert(all[i] == a[i] && all[j] == a[j]);
            assert(i < j || j < i);
        }
        assert forall|i: int, j: int| 0 <= i < b.len() && 0 <= j < b.len() && i != j implies b[i] != b[j] by {
            assert(all[i + a.len()] == b[i] && all[j + a.len()] == b[j]);
            assert(i < j || j < i);
        }
        assert forall|i: int, j: int| 0 <= i < a.len() && 0 <= j < b.len() implies #[trigger] a[i] != #[trigger] b[j] by {
            assert(all[i] == a[i] && all[j + a.len()] == b[j]);
        }
    }
    if a.no_duplicates() && b.no_duplicates() && (forall|i: int, j: int|
        0 <= i < a.len() && 0 <= j < b.len() ==> #[trigger] a[i] != #[trigger] b[j]) {
        assert forall|i: int, j: int| 0 <= i < j < all.len() implies (#[trigger] all[i]) != (#[trigger] all[j]) by {
            if j < a.len() {
                assert(a[i] != a[j]);
            } else if i < a.len() {
                assert(a[i] != b[j - a.len()]);
            } else {
                assert(b[i - a.len()] != b[j - a.len()]);
            }
        }
    }
}

proof fn lemma_startable(p: Provider)
    ensures
        p.fault() is None <==> startable(p),
{
    lemma_argv(p.argv, 0);
    lemma_bytes_push(p.argv);
    lemma_apart(p.required_capabilities, p.optional_capabilities);
    if startable(p) {
        if p.program.contains('\0') {
            let i = choose|i: int| 0 <= i < p.program.len() && p.program[i] == '\0';
            assert(p.program[i] != '\0');
        }
    }
    if p.fault() is None {
        assert forall|i: int| 0 <= i < p.program.len() implies #[trigger] p.program[i] != '\0' by {
            assert(!p.program.contains('\0'));
        }
    }
}

proof fn lemma_usable(rule: ClassificationRuleConfig, verdict: EngineVerdict)
    ensures
        rule.fault(verdict.taxonomy(rule)) is None <==> usable(rule, verdict),
{
    lemma_plain_text("classification.rule.id"@, rule.id@, 128);
    lemma_plain_text("classification.rule.tool_name"@, rule.tool_name@, 64);
    if let Some(version) = rule.tool_version {
        lemma_plain_text("classification.rule.tool_version"@, version@, 64);
    }
    if let NativeRuleId::Exact(value) = rule.native_rule_id {
        lemma_plain_text("classification.rule.native_rule_id"@, value@, 128);
    }
}

proof fn lemma_keys_differ<T: Keyed>(a: T, x: Seq<char>, b: T, y: Seq<char>)
    requires
        a.key() == seq![x],
        b.key() == seq![y],
    ensures
        a.key() == b.key() <==> x == y,
{
    assert(a.key()[0] == x && b.key()[0] == y);
}

#[verifier::rlimit(40)]
proof fn lemma_rules(rules: Seq<ClassificationRuleConfig>, verdict: EngineVerdict, k: int)
    requires
        0 <= k <= rules.len(),
    ensures
        rules_fault(rules, verdict, k) is None <==> (forall|j: int|
            k <= j < rules.len() ==> usable(#[trigger] rules[j], verdict)) && (forall|i: int, j: int|
            0 <= i < j < rules.len() && k <= j ==> (#[trigger] rules[i]).id@ != (#[trigger] rules[j]).id@),
    decreases rules.len() - k,
{
    if k < rules.len() {
        lemma_rules(rules, verdict, k + 1);
        lemma_usable(rules[k], verdict);
        assert forall|i: int| 0 <= i < k implies ((#[trigger] rules[i]).key() == rules[k].key() <==> rules[i].id@
            == rules[k].id@) by {
            lemma_keys_differ(rules[i], rules[i].id@, rules[k], rules[k].id@);
        }
        let here = usable(rules[k], verdict) && !repeats(rules, k);
        assert(rules_fault(rules, verdict, k) is None <==> here && rules_fault(rules, verdict, k + 1) is None);
        if here && rules_fault(rules, verdict, k + 1) is None {
            assert forall|j: int| k <= j < rules.len() implies usable(#[trigger] rules[j], verdict) by {
                assert(j == k || j >= k + 1);
            }
            assert forall|i: int, j: int| 0 <= i < j < rules.len() && k <= j implies (#[trigger] rules[i]).id@ != (
            #[trigger] rules[j]).id@ by {
                assert(j == k || j >= k + 1);
            }
        }
        if (forall|i: int, j: int|
            0 <= i < j < rules.len() && k <= j ==> (#[trigger] rules[i]).id@ != (#[trigger] rules[j]).id@) {
            assert(!repeats(rules, k));
        }
    }
}

#[verifier::rlimit(40)]
proof fn lemma_providers(providers: Seq<ProviderConfig>, k: int)
    requires
        0 <= k <= providers.len(),
    ensures
        providers_fault(providers, k) is None <==> (forall|j: int|
            k <= j < providers.len() ==> startable(#[trigger] providers[j]@)) && (forall|i: int, j: int|
            0 <= i < j < providers.len() && k <= j ==> (#[trigger] providers[i]).adapter_id@ != (
            #[trigger] providers[j]).adapter_id@),
    decreases providers.len() - k,
{
    if k < providers.len() {
        lemma_providers(providers, k + 1);
        lemma_startable(providers[k]@);
        assert forall|i: int| 0 <= i < k implies ((#[trigger] providers[i]).key() == providers[k].key()
            <==> providers[i].adapter_id@ == providers[k].adapter_id@) by {
            lemma_keys_differ(providers[i], providers[i].adapter_id@, providers[k], providers[k].adapter_id@);
        }
        let here = startable(providers[k]@) && !repeats(providers, k);
        assert(providers_fault(providers, k) is None <==> here && providers_fault(providers, k + 1) is None);
        if here && providers_fault(providers, k + 1) is None {
            assert forall|j: int| k <= j < providers.len() implies startable(#[trigger] providers[j]@) by {
                assert(j == k || j >= k + 1);
            }
            assert forall|i: int, j: int| 0 <= i < j < providers.len() && k <= j implies (
            #[trigger] providers[i]).adapter_id@ != (#[trigger] providers[j]).adapter_id@ by {
                assert(j == k || j >= k + 1);
            }
        }
        if (forall|i: int, j: int|
            0 <= i < j < providers.len() && k <= j ==> (#[trigger] providers[i]).adapter_id@ != (
            #[trigger] providers[j]).adapter_id@) {
            assert(!repeats(providers, k));
        }
    }
}

proof fn lemma_targets(targets: Seq<String>)
    ensures
        distinct(targets) <==> forall|i: int, j: int|
            0 <= i < j < targets.len() ==> (#[trigger] targets[i])@ != (#[trigger] targets[j])@,
{
    assert forall|i: int, j: int| 0 <= i < j < targets.len() implies ((#[trigger] targets[i]).key() != (
    #[trigger] targets[j]).key() <==> targets[i]@ != targets[j]@) by {
        lemma_keys_differ(targets[i], targets[i]@, targets[j], targets[j]@);
    }
    if distinct(targets) {
        assert forall|i: int, j: int| 0 <= i < j < targets.len() implies (#[trigger] targets[i])@ != (
        #[trigger] targets[j])@ by {
            assert(targets[i].key() != targets[j].key());
        }
    }
}

/// A configuration is accepted exactly where a run can be made of it.
#[verifier::rlimit(40)]
pub proof fn law_runnable_configurations_are_accepted(config: RuntimeConfig, verdict: EngineVerdict)
    ensures
        config.fault(verdict) is None <==> runnable(config, verdict),
{
    lemma_plain_text("engine.version"@, config.engine.version@, 64);
    lemma_targets(config.repository.targets@);
    lemma_providers(config.providers@, 0);
    lemma_rules(config.classification.rules@, verdict, 0);
    reveal_strlit(".");
    assert("."@ =~= seq!['.']);
}

/// A limit that is refused is the one that the fault names, with the ceiling that it went over.
pub proof fn law_refused_limits_are_named(limits: RuntimeLimits)
    ensures
        limits.fault() matches Some(Fault::Invalid { field, .. }) ==> {
            ||| field == "limits.timeout_ms"@ && (limits.timeout_ms == 0 || limits.timeout_ms > 600_000)
            ||| field == "limits.max_stdout_bytes"@ && limits.max_stdout_bytes > 16_777_216
            ||| field == "limits.max_stderr_bytes"@ && limits.max_stderr_bytes > 4_194_304
            ||| field == "limits.max_evidence_bytes"@ && limits.max_evidence_bytes > 1_048_576
            ||| field == "limits.max_events"@ && limits.max_events > 10_000
        },
        limits.fault() is Some ==> limits.fault()->Some_0 is Invalid,
{
}

/// What a request and a child process are told of the limits is what the configuration says: each limit
/// for what it limits.
pub proof fn law_limits_are_handed_on(limits: RuntimeLimits)
    requires
        limits.fault() is None,
    ensures
        limits.as_request().timeout_ms == limits.timeout_ms,
        limits.as_request().max_stdout_bytes == limits.max_stdout_bytes,
        limits.as_request().max_stderr_bytes == limits.max_stderr_bytes,
        limits.as_request().max_events == limits.max_events,
        limits.as_request().max_evidence_bytes == limits.max_evidence_bytes,
        request_limits(limits.as_request()).timeout.nanos == limits.timeout_ms * 1_000_000,
        request_limits(limits.as_request()).max_stdout_bytes == limits.max_stdout_bytes,
        request_limits(limits.as_request()).max_stderr_bytes == limits.max_stderr_bytes,
{
}

/// A provider is started as it was configured: that program, those arguments in that order, and nothing on
/// its standard input until a request is written.
pub proof fn law_providers_are_started_as_configured(provider: Provider)
    ensures
        invocation_of(provider).program == encode_utf8(provider.program),
        invocation_of(provider).argv == provider.argv,
        invocation_of(provider).current_dir is None,
        invocation_of(provider).stdin.len() == 0,
{
}

} // verus!
