//! The complete runtime configuration.
use super::{either, fault, invalid, judged, reports, text_fault, validate_text, ConfigError, Fault, RuntimeLimits};
use super::provider::{provider_sorted, Provider, ProviderConfig};
use crate::order::{
    arranged, compare_texts, distinct, equal_texts, key_order, lemma_key_order, lemma_key_step, lemma_single_key,
    sort, text_order, Keyed, Placement,
};
use crate::process::invocation::{texts, Invocation, ProcessSpec};
use crate::process::limits::{request_limits, ProcessLimits, RequestLimits};
use vstd::prelude::*;
use vstd::utf8::encode_utf8;

verus! {

/// Engine identity recorded in every report.
#[derive(Clone, Debug, PartialEq, Eq)]
pub struct EngineConfig {
    pub version: String,
    pub source_revision: String,
}

/// Repository-relative runtime inputs.
#[derive(Clone, Debug, PartialEq, Eq)]
pub struct RepositoryConfig {
    pub workspace: String,
    pub targets: Vec<String>,
}

/// Native rule ID matching mode of a classification rule.
#[derive(Clone, Debug, PartialEq, Eq)]
pub enum NativeRuleId {
    Any,
    Absent,
    Exact(String),
}

impl Default for NativeRuleId {
    fn default() -> (r: NativeRuleId)
        ensures
            r is Any,
    {
        NativeRuleId::Any
    }
}

/// One classification rule. Its taxonomy, language and origin are the engine's to judge; `source`
/// is the rule's place in the configuration as it was given, by which they are found again.
#[derive(Clone, Debug, PartialEq, Eq)]
pub struct ClassificationRuleConfig {
    pub id: String,
    pub tool_name: String,
    pub tool_version: Option<String>,
    pub native_rule_id: NativeRuleId,
    pub source: usize,
}

impl Keyed for ClassificationRuleConfig {
    open spec fn key(&self) -> Seq<Seq<char>> {
        seq![self.id@]
    }

    fn compare(&self, other: &Self) -> (r: Placement) {
        proof {
            lemma_single_key(self.id@, other.id@);
        }
        compare_texts(self.id.as_str(), other.id.as_str())
    }
}

/// One policy rule. What it matches is the engine's to judge; `source` is the rule's place in the
/// configuration as it was given, by which it is found again.
#[derive(Clone, Debug, PartialEq, Eq)]
pub struct PolicyRule {
    pub rule_id: String,
    pub source: usize,
}

impl Keyed for PolicyRule {
    open spec fn key(&self) -> Seq<Seq<char>> {
        seq![self.rule_id@]
    }

    fn compare(&self, other: &Self) -> (r: Placement) {
        proof {
            lemma_single_key(self.rule_id@, other.rule_id@);
        }
        compare_texts(self.rule_id.as_str(), other.rule_id.as_str())
    }
}

/// What a waiver lets pass.
#[derive(Clone, Copy, Debug, PartialEq, Eq, Structural)]
pub enum WaivedAction {
    Warn,
    Block,
}

/// The name of the action in the configuration.
pub open spec fn action_name(action: WaivedAction) -> Seq<char> {
    match action {
        WaivedAction::Warn => "WARN"@,
        WaivedAction::Block => "BLOCK"@,
    }
}

pub fn waived_action_wire(action: &WaivedAction) -> (r: &'static str)
    ensures
        r@ == action_name(*action),
{
    match action {
        WaivedAction::Warn => "WARN",
        WaivedAction::Block => "BLOCK",
    }
}

/// One policy waiver.
#[derive(Clone, Debug, PartialEq, Eq)]
pub struct PolicyWaiver {
    pub fingerprint: String,
    pub waived_action: WaivedAction,
    pub reason: String,
    pub owner: String,
    pub expires_at: String,
}

impl Keyed for PolicyWaiver {
    open spec fn key(&self) -> Seq<Seq<char>> {
        seq![self.fingerprint@] + (seq![action_name(self.waived_action)] + (seq![self.reason@] + (seq![self.owner@] + seq![
            self.expires_at@,
        ])))
    }

    fn compare(&self, other: &Self) -> (r: Placement) {
        proof {
            lemma_waiver_key(*self, *other);
        }
        match compare_texts(self.fingerprint.as_str(), other.fingerprint.as_str()) {
            Placement::Same => {},
            placed => {
                return placed;
            },
        }
        match compare_texts(waived_action_wire(&self.waived_action), waived_action_wire(&other.waived_action)) {
            Placement::Same => {},
            placed => {
                return placed;
            },
        }
        match compare_texts(self.reason.as_str(), other.reason.as_str()) {
            Placement::Same => {},
            placed => {
                return placed;
            },
        }
        match compare_texts(self.owner.as_str(), other.owner.as_str()) {
            Placement::Same => {},
            placed => {
                return placed;
            },
        }
        compare_texts(self.expires_at.as_str(), other.expires_at.as_str())
    }
}

/// Waivers go by fingerprint, then by action, reason, owner and expiry.
proof fn lemma_waiver_key(a: PolicyWaiver, b: PolicyWaiver)
    ensures
        key_order(a.key(), b.key()) == (match text_order(a.fingerprint@, b.fingerprint@) {
            Placement::Same => match text_order(action_name(a.waived_action), action_name(b.waived_action)) {
                Placement::Same => match text_order(a.reason@, b.reason@) {
                    Placement::Same => match text_order(a.owner@, b.owner@) {
                        Placement::Same => text_order(a.expires_at@, b.expires_at@),
                        other => other,
                    },
                    other => other,
                },
                other => other,
            },
            other => other,
        }),
{
    let (ea, eb) = (seq![a.expires_at@], seq![b.expires_at@]);
    let (oa, ob) = (seq![a.owner@] + ea, seq![b.owner@] + eb);
    let (ra, rb) = (seq![a.reason@] + oa, seq![b.reason@] + ob);
    let (wa, wb) = (seq![action_name(a.waived_action)] + ra, seq![action_name(b.waived_action)] + rb);
    lemma_single_key(a.expires_at@, b.expires_at@);
    lemma_key_step(a.owner@, b.owner@, ea, eb);
    lemma_key_step(a.reason@, b.reason@, oa, ob);
    lemma_key_step(action_name(a.waived_action), action_name(b.waived_action), ra, rb);
    lemma_key_step(a.fingerprint@, b.fingerprint@, wa, wb);
}

/// Policy-independent classification catalog supplied by the repository.
#[derive(Clone, Debug, PartialEq, Eq)]
pub struct ClassificationConfig {
    pub rules: Vec<ClassificationRuleConfig>,
}

/// Repository policy. Its evaluation is the engine's.
#[derive(Clone, Debug, PartialEq, Eq)]
pub struct PolicyConfig {
    pub rules: Vec<PolicyRule>,
    pub waivers: Vec<PolicyWaiver>,
}

/// Supported report encodings.
#[derive(Clone, Copy, Debug, PartialEq, Eq, Structural)]
pub enum OutputFormat {
    Json,
    Tsv,
}

impl Default for OutputFormat {
    fn default() -> (r: OutputFormat)
        ensures
            r == OutputFormat::Json,
    {
        OutputFormat::Json
    }
}

/// Output destination and encoding.
#[derive(Clone, Debug, PartialEq, Eq)]
pub struct OutputConfig {
    pub format: OutputFormat,
    pub path: Option<String>,
}

impl Default for OutputConfig {
    fn default() -> (r: OutputConfig)
        ensures
            r.format == OutputFormat::Json,
            r.path is None,
    {
        OutputConfig { format: OutputFormat::Json, path: None }
    }
}

impl OutputConfig {
    /// What is wrong with the destination.
    pub open spec fn fault(self) -> Option<Fault> {
        match self.path {
            Some(path) => if path@ == "."@ {
                fault("output.path"@, "must name an output file"@)
            } else {
                None
            },
            None => None,
        }
    }

    pub fn validate(&self) -> (r: Result<(), ConfigError>)
        ensures
            judged(r, self.fault()),
    {
        match &self.path {
            Some(path) => {
                if equal_texts(path.as_str(), ".") {
                    return Err(invalid("output.path", "must name an output file"));
                }
            },
            None => {},
        }
        Ok(())
    }
}

/// What the engine says of a configuration: how many classification rules it takes, which of
/// their taxonomies are valid, and whether the policy is. The taxonomies stand in the order in which
/// `source` counts the rules.
#[derive(Clone, Debug, PartialEq, Eq)]
pub struct EngineVerdict {
    pub max_classification_rules: usize,
    pub valid_taxonomies: Vec<bool>,
    pub valid_policy: bool,
}

impl EngineVerdict {
    /// The engine accepts the rule's taxonomy.
    pub open spec fn taxonomy(self, rule: ClassificationRuleConfig) -> bool {
        rule.source < self.valid_taxonomies@.len() && self.valid_taxonomies@[rule.source as int]
    }
}

impl ClassificationRuleConfig {
    /// What is wrong with the rule, apart from its taxonomy.
    pub open spec fn text_faults(self) -> Option<Fault> {
        either(
            text_fault("classification.rule.id"@, self.id@, 1, 128),
            either(
                text_fault("classification.rule.tool_name"@, self.tool_name@, 1, 64),
                either(
                    match self.tool_version {
                        Some(version) => text_fault("classification.rule.tool_version"@, version@, 1, 64),
                        None => None,
                    },
                    match self.native_rule_id {
                        NativeRuleId::Exact(value) => text_fault(
                            "classification.rule.native_rule_id"@,
                            value@,
                            1,
                            128,
                        ),
                        _ => None,
                    },
                ),
            ),
        )
    }

    /// What is wrong with the rule, when `taxonomy` tells whether its taxonomy is valid.
    pub open spec fn fault(self, taxonomy: bool) -> Option<Fault> {
        either(
            self.text_faults(),
            if taxonomy {
                None
            } else {
                Some(Fault::Taxonomy)
            },
        )
    }

    pub fn validate(&self, taxonomy: bool) -> (r: Result<(), ConfigError>)
        ensures
            judged(r, self.fault(taxonomy)),
    {
        match validate_text("classification.rule.id", self.id.as_str(), 1, 128) {
            Ok(()) => {},
            Err(e) => {
                return Err(e);
            },
        }
        match validate_text("classification.rule.tool_name", self.tool_name.as_str(), 1, 64) {
            Ok(()) => {},
            Err(e) => {
                return Err(e);
            },
        }
        match &self.tool_version {
            Some(version) => match validate_text("classification.rule.tool_version", version.as_str(), 1, 64) {
                Ok(()) => {},
                Err(e) => {
                    return Err(e);
                },
            },
            None => {},
        }
        match &self.native_rule_id {
            NativeRuleId::Exact(value) => match validate_text(
                "classification.rule.native_rule_id",
                value.as_str(),
                1,
                128,
            ) {
                Ok(()) => {},
                Err(e) => {
                    return Err(e);
                },
            },
            _ => {},
        }
        if taxonomy {
            Ok(())
        } else {
            Err(ConfigError::Taxonomy)
        }
    }
}

/// The `k`-th value has the place of an earlier one.
pub open spec fn repeats<T: Keyed>(v: Seq<T>, k: int) -> bool {
    exists|j: int| 0 <= j < k && (#[trigger] v[j]).key() == v[k].key()
}

fn is_repeated<T: Keyed>(v: &Vec<T>, k: usize) -> (r: bool)
    requires
        k < v.len(),
    ensures
        r == repeats(v@, k as int),
{
    let mut j: usize = 0;
    while j < k
        invariant
            j <= k < v.len(),
            forall|i: int| 0 <= i < j ==> (#[trigger] v@[i]).key() != v@[k as int].key(),
        decreases k - j,
    {
        proof {
            lemma_key_order(v@[j as int].key(), v@[k as int].key());
        }
        if v[j].compare(&v[k]) == Placement::Same {
            return true;
        }
        j = j + 1;
    }
    false
}

/// What is wrong with the classification rules from the `k`-th on.
pub open spec fn rules_fault(rules: Seq<ClassificationRuleConfig>, verdict: EngineVerdict, k: int) -> Option<Fault>
    decreases rules.len() - k,
{
    if k < 0 || k >= rules.len() {
        None
    } else {
        either(
            either(
                rules[k].fault(verdict.taxonomy(rules[k])),
                if repeats(rules, k) {
                    Some(Fault::Rule { rule_id: rules[k].id@, reason: "rule ID is duplicated"@ })
                } else {
                    None
                },
            ),
            rules_fault(rules, verdict, k + 1),
        )
    }
}

impl ClassificationConfig {
    pub open spec fn fault(self, verdict: EngineVerdict) -> Option<Fault> {
        if self.rules@.len() > verdict.max_classification_rules {
            fault("classification.rules"@, "exceeds the Engine classification rule limit"@)
        } else {
            rules_fault(self.rules@, verdict, 0)
        }
    }

    pub fn validate(&self, verdict: &EngineVerdict) -> (r: Result<(), ConfigError>)
        ensures
            judged(r, self.fault(*verdict)),
    {
        if self.rules.len() > verdict.max_classification_rules {
            return Err(invalid("classification.rules", "exceeds the Engine classification rule limit"));
        }
        let mut k: usize = 0;
        while k < self.rules.len()
            invariant
                k <= self.rules.len(),
                rules_fault(self.rules@, *verdict, 0) == rules_fault(self.rules@, *verdict, k as int),
                self.rules@.len() <= verdict.max_classification_rules,
            decreases self.rules.len() - k,
        {
            let source: usize = self.rules[k].source;
            let taxonomy: bool = source < verdict.valid_taxonomies.len() && verdict.valid_taxonomies[source];
            match self.rules[k].validate(taxonomy) {
                Ok(()) => {},
                Err(e) => {
                    return Err(e);
                },
            }
            if is_repeated(&self.rules, k) {
                return Err(
                    ConfigError::InvalidClassificationRule {
                        rule_id: self.rules[k].id.clone(),
                        reason: "rule ID is duplicated".to_owned(),
                    },
                );
            }
            k = k + 1;
        }
        Ok(())
    }
}

/// What is wrong with the providers from the `k`-th on.
pub open spec fn providers_fault(providers: Seq<ProviderConfig>, k: int) -> Option<Fault>
    decreases providers.len() - k,
{
    if k < 0 || k >= providers.len() {
        None
    } else {
        either(
            either(
                providers[k]@.fault(),
                if repeats(providers, k) {
                    fault("providers"@, "adapter_id must be unique"@)
                } else {
                    None
                },
            ),
            providers_fault(providers, k + 1),
        )
    }
}

/// Complete runtime configuration.
#[derive(Clone, Debug, PartialEq, Eq)]
pub struct RuntimeConfig {
    pub engine: EngineConfig,
    pub repository: RepositoryConfig,
    pub providers: Vec<ProviderConfig>,
    pub limits: RuntimeLimits,
    pub classification: ClassificationConfig,
    pub policy: PolicyConfig,
    pub output: OutputConfig,
}

/// A provider without which nothing is complete.
pub open spec fn some_required(providers: Seq<ProviderConfig>) -> bool {
    exists|k: int| 0 <= k < providers.len() && (#[trigger] providers[k]).required
}

impl RuntimeConfig {
    pub open spec fn targets_fault(self) -> Option<Fault> {
        let targets = self.repository.targets@;
        if targets.len() == 0 {
            fault("repository.targets"@, "must contain at least one target"@)
        } else if targets.len() > 256 {
            fault("repository.targets"@, "must contain at most 256 targets"@)
        } else if !distinct(targets) {
            fault("repository.targets"@, "must not contain duplicate paths"@)
        } else {
            None
        }
    }

    pub open spec fn all_providers_fault(self) -> Option<Fault> {
        let providers = self.providers@;
        if providers.len() == 0 {
            fault("providers"@, "must contain at least one provider"@)
        } else if providers.len() > 64 {
            fault("providers"@, "must contain at most 64 providers"@)
        } else if providers_fault(providers, 0) is Some {
            providers_fault(providers, 0)
        } else if !some_required(providers) {
            fault("providers"@, "must contain at least one required provider"@)
        } else {
            None
        }
    }

    /// What is wrong with the configuration; the first fault counts.
    pub open spec fn fault(self, verdict: EngineVerdict) -> Option<Fault> {
        either(
            text_fault("engine.version"@, self.engine.version@, 1, 64),
            either(
                self.targets_fault(),
                either(
                    self.all_providers_fault(),
                    either(
                        self.limits.fault(),
                        either(
                            self.output.fault(),
                            either(
                                self.classification.fault(verdict),
                                if verdict.valid_policy {
                                    None
                                } else {
                                    Some(Fault::Policy)
                                },
                            ),
                        ),
                    ),
                ),
            ),
        )
    }

    /// `other` is the normal form of the configuration: what is a set stands sorted, what is a
    /// sequence stays as it is.
    pub open spec fn normal_form(self, other: RuntimeConfig) -> bool {
        &&& other.engine == self.engine
        &&& other.repository.workspace == self.repository.workspace
        &&& other.repository.targets@ == arranged(self.repository.targets@)
        &&& exists|inside: Seq<ProviderConfig>| #[trigger]
            providers_sorted_inside(self.providers@, inside) && other.providers@ == arranged(inside)
        &&& other.limits == self.limits
        &&& other.classification.rules@ == arranged(self.classification.rules@)
        &&& other.policy.rules@ == arranged(self.policy.rules@)
        &&& other.policy.waivers@ == arranged(self.policy.waivers@)
        &&& other.output == self.output
    }

    fn validate_targets(&self) -> (r: Result<(), ConfigError>)
        ensures
            judged(r, self.targets_fault()),
    {
        if self.repository.targets.len() == 0 {
            return Err(invalid("repository.targets", "must contain at least one target"));
        }
        if self.repository.targets.len() > 256 {
            return Err(invalid("repository.targets", "must contain at most 256 targets"));
        }
        if !crate::order::all_distinct(&self.repository.targets) {
            return Err(invalid("repository.targets", "must not contain duplicate paths"));
        }
        Ok(())
    }

    fn validate_providers(&self) -> (r: Result<(), ConfigError>)
        ensures
            judged(r, self.all_providers_fault()),
    {
        if self.providers.len() == 0 {
            return Err(invalid("providers", "must contain at least one provider"));
        }
        if self.providers.len() > 64 {
            return Err(invalid("providers", "must contain at most 64 providers"));
        }
        let mut required: bool = false;
        let mut k: usize = 0;
        while k < self.providers.len()
            invariant
                k <= self.providers.len(),
                0 < self.providers@.len() <= 64,
                providers_fault(self.providers@, 0) == providers_fault(self.providers@, k as int),
                required == exists|j: int| 0 <= j < k && (#[trigger] self.providers@[j]).required,
            decreases self.providers.len() - k,
        {
            match self.providers[k].validate() {
                Ok(()) => {},
                Err(e) => {
                    return Err(e);
                },
            }
            if is_repeated(&self.providers, k) {
                return Err(invalid("providers", "adapter_id must be unique"));
            }
            assert(self.providers@[k as int].required == self.providers[k as int].required);
            required = required || self.providers[k].required;
            k = k + 1;
        }
        if !required {
            return Err(invalid("providers", "must contain at least one required provider"));
        }
        Ok(())
    }

    /// Validates the configuration, given what the engine says of it.
    pub fn validate(&self, verdict: &EngineVerdict) -> (r: Result<(), ConfigError>)
        ensures
            judged(r, self.fault(*verdict)),
    {
        match validate_text("engine.version", self.engine.version.as_str(), 1, 64) {
            Ok(()) => {},
            Err(e) => {
                return Err(e);
            },
        }
        match self.validate_targets() {
            Ok(()) => {},
            Err(e) => {
                return Err(e);
            },
        }
        match self.validate_providers() {
            Ok(()) => {},
            Err(e) => {
                return Err(e);
            },
        }
        match self.limits.validate() {
            Ok(()) => {},
            Err(e) => {
                return Err(e);
            },
        }
        match self.output.validate() {
            Ok(()) => {},
            Err(e) => {
                return Err(e);
            },
        }
        match self.classification.validate(verdict) {
            Ok(()) => {},
            Err(e) => {
                return Err(e);
            },
        }
        if verdict.valid_policy {
            Ok(())
        } else {
            Err(ConfigError::Policy)
        }
    }

    /// Brings the configuration into its normal form.
    pub fn normalized(self) -> (r: RuntimeConfig)
        ensures
            self.normal_form(r),
    {
        let mut config: RuntimeConfig = self;
        sort(&mut config.repository.targets);
        let mut k: usize = 0;
        while k < config.providers.len()
            invariant
                k <= config.providers.len(),
                config.providers@.len() == self.providers@.len(),
                config.engine == self.engine,
                config.repository.workspace == self.repository.workspace,
                config.repository.targets@ == arranged(self.repository.targets@),
                config.limits == self.limits,
                config.classification == self.classification,
                config.policy == self.policy,
                config.output == self.output,
                forall|j: int| 0 <= j < k ==> provider_sorted(self.providers@[j], #[trigger] config.providers@[j]),
                forall|j: int| k <= j < self.providers@.len() ==> config.providers@[j] == #[trigger] self.providers@[j],
            decreases config.providers.len() - k,
        {
            config.providers[k].sort_capabilities();
            k = k + 1;
        }
        assert(providers_sorted_inside(self.providers@, config.providers@));
        sort(&mut config.providers);
        sort(&mut config.classification.rules);
        sort(&mut config.policy.rules);
        sort(&mut config.policy.waivers);
        config
    }

    /// Validates the configuration and brings it into its normal form.
    pub fn normalize_and_validate(self, verdict: &EngineVerdict) -> (r: Result<RuntimeConfig, ConfigError>)
        ensures
            match r {
                Ok(config) => self.fault(*verdict) is None && self.normal_form(config),
                Err(e) => self.fault(*verdict) matches Some(f) && reports(e, f),
            },
    {
        match self.validate(verdict) {
            Ok(()) => {},
            Err(e) => {
                return Err(e);
            },
        }
        Ok(self.normalized())
    }

    /// The classification rules in their normal order, from which the engine makes its own.
    pub fn classification_rules(self, verdict: &EngineVerdict) -> (r: Result<Vec<ClassificationRuleConfig>, ConfigError>)
        ensures
            match r {
                Ok(rules) => self.fault(*verdict) is None && rules@ == arranged(self.classification.rules@),
                Err(e) => self.fault(*verdict) matches Some(f) && reports(e, f),
            },
    {
        match self.normalize_and_validate(verdict) {
            Ok(config) => Ok(config.classification.rules),
            Err(e) => Err(e),
        }
    }

    /// The policy in its normal order, from which the engine makes its snapshot.
    pub fn policy_snapshot(self, verdict: &EngineVerdict) -> (r: Result<PolicyConfig, ConfigError>)
        ensures
            match r {
                Ok(policy) => self.fault(*verdict) is None && policy.rules@ == arranged(self.policy.rules@)
                    && policy.waivers@ == arranged(self.policy.waivers@),
                Err(e) => self.fault(*verdict) matches Some(f) && reports(e, f),
            },
    {
        match self.normalize_and_validate(verdict) {
            Ok(config) => Ok(config.policy),
            Err(e) => Err(e),
        }
    }

    /// The limits that requests to adapters state.
    pub fn request_limits(&self, verdict: &EngineVerdict) -> (r: Result<RequestLimits, ConfigError>)
        ensures
            match r {
                Ok(request) => self.fault(*verdict) is None && request == self.limits.as_request(),
                Err(e) => self.fault(*verdict) matches Some(f) && reports(e, f),
            },
    {
        match self.validate(verdict) {
            Ok(()) => self.limits.to_request(),
            Err(e) => Err(e),
        }
    }

    /// The limits of one direct child invocation.
    pub fn process_limits(&self, verdict: &EngineVerdict) -> (r: Result<ProcessLimits, ConfigError>)
        ensures
            match r {
                Ok(limits) => self.fault(*verdict) is None && limits == request_limits(self.limits.as_request())
                    && limits.valid(),
                Err(e) => self.fault(*verdict) matches Some(f) && reports(e, f),
            },
    {
        match self.request_limits(verdict) {
            Ok(request) => {
                proof {
                    super::law_valid_limits_fit_a_process(self.limits);
                }
                match ProcessLimits::from_request(&request) {
                    Ok(limits) => Ok(limits),
                    Err(e) => Err(ConfigError::Process(e)),
                }
            },
            Err(e) => Err(e),
        }
    }

    /// A direct, shell-free process specification for one configured adapter. Its program and
    /// arguments are copied without parsing or joining; no working directory is set.
    pub fn process_spec(&self, adapter_id: &str, verdict: &EngineVerdict) -> (r: Result<ProcessSpec, ConfigError>)
        ensures
            match r {
                Ok(spec) => self.fault(*verdict) is None && exists|k: int|
                    0 <= k < self.providers@.len() && (#[trigger] self.providers@[k]).adapter_id@ == adapter_id@ && spec@
                        == invocation_of(self.providers@[k]@),
                Err(e) => match self.fault(*verdict) {
                    Some(f) => reports(e, f),
                    None => (forall|k: int|
                        0 <= k < self.providers@.len() ==> (#[trigger] self.providers@[k]).adapter_id@ != adapter_id@)
                        && reports(
                        e,
                        Fault::Invalid {
                            field: "adapter_id"@,
                            reason: "unknown configured adapter "@ + adapter_id@,
                        },
                    ),
                },
            },
    {
        match self.validate(verdict) {
            Ok(()) => {},
            Err(e) => {
                return Err(e);
            },
        }
        let mut k: usize = 0;
        while k < self.providers.len()
            invariant
                k <= self.providers.len(),
                self.fault(*verdict) is None,
                forall|j: int| 0 <= j < k ==> (#[trigger] self.providers@[j]).adapter_id@ != adapter_id@,
            decreases self.providers.len() - k,
        {
            let provider: &ProviderConfig = &self.providers[k];
            assert(self.providers@[k as int] == *provider);
            if equal_texts(provider.adapter_id.as_str(), adapter_id) {
                let mut spec = ProcessSpec::new(provider.program.as_str().as_bytes());
                let mut i: usize = 0;
                assert(texts(provider.argv@).take(0) =~= Seq::<Seq<char>>::empty());
                while i < provider.argv.len()
                    invariant
                        i <= provider.argv.len(),
                        spec@ == (Invocation { argv: texts(provider.argv@).take(i as int), ..invocation_of(provider@) }),
                    decreases provider.argv.len() - i,
                {
                    assert(texts(provider.argv@).take(i as int).push(provider.argv@[i as int]@) =~= texts(
                        provider.argv@,
                    ).take(i + 1));
                    spec = spec.arg(provider.argv[i].as_str());
                    i = i + 1;
                }
                assert(texts(provider.argv@).take(provider.argv@.len() as int) =~= texts(provider.argv@));
                return Ok(spec);
            }
            k = k + 1;
        }
        let mut reason: Vec<char> = crate::text::chars_of("unknown configured adapter ");
        let mut name: Vec<char> = crate::text::chars_of(adapter_id);
        reason.append(&mut name);
        Err(
            ConfigError::Invalid {
                field: "adapter_id".to_owned(),
                reason: crate::text::string_of(reason.as_slice()),
            },
        )
    }
}

/// How a provider is run.
pub open spec fn invocation_of(provider: Provider) -> Invocation {
    Invocation {
        program: encode_utf8(provider.program),
        argv: provider.argv,
        current_dir: None,
        stdin: Seq::empty(),
    }
}

/// Each provider has its capabilities sorted.
pub open spec fn providers_sorted_inside(a: Seq<ProviderConfig>, b: Seq<ProviderConfig>) -> bool {
    a.len() == b.len() && forall|k: int| 0 <= k < a.len() ==> provider_sorted(#[trigger] a[k], b[k])
}

} // verus!
