//! What holds of the normal form of a configuration.
use super::provider::{disjoint, provider_sorted, Provider, ProviderConfig};
use super::runtime::{
    providers_fault, providers_sorted_inside, repeats, rules_fault, ClassificationRuleConfig, EngineVerdict,
    RuntimeConfig,
};
use crate::order::{
    arranged, distinct, in_order, law_arranged_texts_ignore_order, law_arranging_ignores_order, law_sorted_stays,
    lemma_arranged_sorts, lemma_arranged_texts, lemma_distinct_permutation, lemma_mapped_multiset,
    lemma_no_duplicates_permutation, lemma_single_key, lemma_texts_in_order, sorted, texts_in_order, Keyed,
};
use crate::process::invocation::texts;
use vstd::prelude::*;

verus! {

/// The two configurations say the same, list by list and text by text.
pub open spec fn same_config(a: RuntimeConfig, b: RuntimeConfig) -> bool {
    &&& a.engine == b.engine
    &&& a.repository.workspace == b.repository.workspace
    &&& a.repository.targets@ == b.repository.targets@
    &&& provider_views(a.providers@) == provider_views(b.providers@)
    &&& a.limits == b.limits
    &&& a.classification.rules@ == b.classification.rules@
    &&& a.policy.rules@ == b.policy.rules@
    &&& a.policy.waivers@ == b.policy.waivers@
    &&& a.output == b.output
}

/// What the providers hold.
pub open spec fn provider_views(v: Seq<ProviderConfig>) -> Seq<Provider> {
    v.map_values(|p: ProviderConfig| p@)
}

/// What a provider holds, once its capabilities are sorted.
spec fn normal_view(p: ProviderConfig) -> Provider {
    Provider {
        required_capabilities: texts(arranged(p.required_capabilities@)),
        optional_capabilities: texts(arranged(p.optional_capabilities@)),
        ..p@
    }
}

spec fn normal_views(v: Seq<ProviderConfig>) -> Seq<Provider> {
    v.map_values(|p: ProviderConfig| normal_view(p))
}

/// The values have the same places, one by one.
spec fn same_places<T: Keyed>(v: Seq<T>, w: Seq<T>) -> bool {
    v.len() == w.len() && forall|i: int| 0 <= i < v.len() ==> (#[trigger] v[i]).key() == w[i].key()
}

proof fn lemma_sorted_inside(v: Seq<ProviderConfig>, inside: Seq<ProviderConfig>)
    requires
        providers_sorted_inside(v, inside),
    ensures
        provider_views(inside) == normal_views(v),
        same_places(v, inside),
{
    assert forall|k: int| 0 <= k < v.len() implies provider_views(inside)[k] == normal_views(v)[k] && inside[k].key()
        == (#[trigger] v[k]).key() by {
        assert(provider_sorted(v[k], inside[k]));
    }
    assert(provider_views(inside) =~= normal_views(v));
}

/// Sorting its capabilities does not make a provider wrong.
proof fn lemma_sorted_provider_fault(a: ProviderConfig, b: ProviderConfig)
    requires
        provider_sorted(a, b),
        a@.fault() is None,
    ensures
        b@.fault() is None,
{
    broadcast use vstd::seq_lib::group_to_multiset_ensures;

    let ra = a@.required_capabilities;
    let oa = a@.optional_capabilities;
    let rb = b@.required_capabilities;
    let ob = b@.optional_capabilities;
    lemma_arranged_texts(a.required_capabilities@);
    lemma_arranged_texts(a.optional_capabilities@);
    assert(ra.len() == ra.to_multiset().len() && rb.len() == rb.to_multiset().len());
    assert(oa.len() == oa.to_multiset().len() && ob.len() == ob.to_multiset().len());
    vstd::seq_lib::lemma_multiset_commutative(ra, oa);
    vstd::seq_lib::lemma_multiset_commutative(rb, ob);
    assert((ra + oa).no_duplicates()) by {
        assert forall|i: int, j: int| 0 <= i < (ra + oa).len() && 0 <= j < (ra + oa).len() && i != j implies (ra
            + oa)[i] != (ra + oa)[j] by {
            if i < j {
                assert((ra + oa)[i] != (ra + oa)[j]);
            } else {
                assert((ra + oa)[j] != (ra + oa)[i]);
            }
        }
    }
    lemma_no_duplicates_permutation(ra + oa, rb + ob);
    assert(disjoint(rb, ob));
}

/// Nothing is wrong with providers exactly where nothing is wrong with any of them and no two share
/// an adapter.
proof fn lemma_providers_fault(v: Seq<ProviderConfig>, k: int)
    requires
        0 <= k <= v.len(),
    ensures
        providers_fault(v, k) is None <==> forall|i: int|
            k <= i < v.len() ==> (#[trigger] v[i])@.fault() is None && !repeats(v, i),
    decreases v.len() - k,
{
    if k < v.len() {
        lemma_providers_fault(v, k + 1);
        if providers_fault(v, k) is None {
            assert forall|i: int| k <= i < v.len() implies (#[trigger] v[i])@.fault() is None && !repeats(v, i) by {
                if i > k {
                    assert(k + 1 <= i);
                }
            }
        } else {
            if forall|i: int| k <= i < v.len() ==> (#[trigger] v[i])@.fault() is None && !repeats(v, i) {
                assert(v[k]@.fault() is None && !repeats(v, k));
            }
        }
    }
}

proof fn lemma_rules_fault(v: Seq<ClassificationRuleConfig>, verdict: EngineVerdict, k: int)
    requires
        0 <= k <= v.len(),
    ensures
        rules_fault(v, verdict, k) is None <==> forall|i: int|
            k <= i < v.len() ==> (#[trigger] v[i]).fault(verdict.taxonomy(v[i])) is None && !repeats(v, i),
    decreases v.len() - k,
{
    if k < v.len() {
        lemma_rules_fault(v, verdict, k + 1);
        if rules_fault(v, verdict, k) is None {
            assert forall|i: int| k <= i < v.len() implies (#[trigger] v[i]).fault(verdict.taxonomy(v[i])) is None
                && !repeats(v, i) by {
                if i > k {
                    assert(k + 1 <= i);
                }
            }
        } else {
            if forall|i: int|
                k <= i < v.len() ==> (#[trigger] v[i]).fault(verdict.taxonomy(v[i])) is None && !repeats(v, i) {
                assert(v[k].fault(verdict.taxonomy(v[k])) is None && !repeats(v, k));
            }
        }
    }
}

proof fn lemma_repeats<T: Keyed>(v: Seq<T>)
    ensures
        distinct(v) <==> forall|i: int| 0 <= i < v.len() ==> !repeats(v, i),
{
    if distinct(v) {
        assert forall|i: int| 0 <= i < v.len() implies !repeats(v, i) by {
            if repeats(v, i) {
                let j = choose|j: int| 0 <= j < i && (#[trigger] v[j]).key() == v[i].key();
                assert(v[j].key() != v[i].key());
            }
        }
    }
    if forall|i: int| 0 <= i < v.len() ==> !repeats(v, i) {
        assert forall|i: int, j: int| 0 <= i < j < v.len() implies (#[trigger] v[i]).key() != (#[trigger] v[j]).key() by {
            assert(!repeats(v, j));
        }
    }
}

proof fn lemma_same_members<T>(v: Seq<T>, w: Seq<T>, x: T)
    requires
        v.to_multiset() == w.to_multiset(),
        v.contains(x),
    ensures
        w.contains(x),
        v.len() == w.len(),
{
    broadcast use vstd::seq_lib::group_to_multiset_ensures;

    assert(v.to_multiset().count(x) > 0);
    assert(v.len() == v.to_multiset().len() && w.len() == w.to_multiset().len());
}

proof fn lemma_same_length<T>(v: Seq<T>, w: Seq<T>)
    requires
        v.to_multiset() == w.to_multiset(),
    ensures
        v.len() == w.len(),
{
    broadcast use vstd::seq_lib::group_to_multiset_ensures;

    assert(v.len() == v.to_multiset().len() && w.len() == w.to_multiset().len());
}

proof fn lemma_same_places<T: Keyed>(v: Seq<T>, w: Seq<T>)
    requires
        same_places(v, w),
    ensures
        distinct(v) ==> distinct(w),
        sorted(v) ==> sorted(w),
{
    if distinct(v) {
        assert forall|i: int, j: int| 0 <= i < j < w.len() implies (#[trigger] w[i]).key() != (#[trigger] w[j]).key() by {
            assert(v[i].key() != v[j].key());
        }
    }
    if sorted(v) {
        assert forall|i: int, j: int| 0 <= i < j < w.len() implies in_order(
            (#[trigger] w[i]).key(),
            (#[trigger] w[j]).key(),
        ) by {
            assert(in_order(v[i].key(), v[j].key()));
        }
    }
}

proof fn lemma_normal_providers(a: RuntimeConfig, b: RuntimeConfig)
    requires
        a.normal_form(b),
        a.all_providers_fault() is None,
    ensures
        b.all_providers_fault() is None,
{
    let v = a.providers@;
    let w = b.providers@;
    let inside = choose|inside: Seq<ProviderConfig>| #[trigger]
        providers_sorted_inside(v, inside) && w == arranged(inside);
    lemma_sorted_inside(v, inside);
    lemma_arranged_sorts(inside);
    lemma_same_length(inside, w);
    lemma_providers_fault(v, 0);
    lemma_providers_fault(w, 0);
    lemma_repeats(v);
    lemma_repeats(w);
    assert(distinct(v));
    lemma_same_places(v, inside);
    lemma_distinct_permutation(inside, w);
    assert forall|i: int| 0 <= i < w.len() implies (#[trigger] w[i])@.fault() is None by {
        assert(w.contains(w[i]));
        lemma_same_members(w, inside, w[i]);
        let j = choose|j: int| 0 <= j < inside.len() && inside[j] == w[i];
        assert(provider_sorted(v[j], inside[j]));
        lemma_sorted_provider_fault(v[j], inside[j]);
    }
    let r = choose|k: int| 0 <= k < v.len() && (#[trigger] v[k]).required;
    assert(provider_sorted(v[r], inside[r]));
    assert(inside.contains(inside[r]));
    lemma_same_members(inside, w, inside[r]);
    let s = choose|s: int| 0 <= s < w.len() && w[s] == inside[r];
    assert(w[s].required);
}

proof fn lemma_normal_rules(a: RuntimeConfig, b: RuntimeConfig, verdict: EngineVerdict)
    requires
        a.normal_form(b),
        a.classification.fault(verdict) is None,
    ensures
        b.classification.fault(verdict) is None,
{
    let v = a.classification.rules@;
    let w = b.classification.rules@;
    lemma_arranged_sorts(v);
    lemma_same_length(v, w);
    lemma_rules_fault(v, verdict, 0);
    lemma_rules_fault(w, verdict, 0);
    lemma_repeats(v);
    lemma_repeats(w);
    lemma_distinct_permutation(v, w);
    assert forall|i: int| 0 <= i < w.len() implies (#[trigger] w[i]).fault(verdict.taxonomy(w[i])) is None by {
        assert(w.contains(w[i]));
        lemma_same_members(w, v, w[i]);
        let j = choose|j: int| 0 <= j < v.len() && v[j] == w[i];
        assert(v[j].fault(verdict.taxonomy(v[j])) is None);
    }
}

/// Nothing is wrong with the normal form of a configuration with which nothing is wrong.
pub proof fn law_normal_form_is_valid(a: RuntimeConfig, b: RuntimeConfig, verdict: EngineVerdict)
    requires
        a.normal_form(b),
        a.fault(verdict) is None,
    ensures
        b.fault(verdict) is None,
{
    lemma_arranged_sorts(a.repository.targets@);
    lemma_same_length(a.repository.targets@, b.repository.targets@);
    lemma_distinct_permutation(a.repository.targets@, b.repository.targets@);
    lemma_normal_providers(a, b);
    lemma_normal_rules(a, b, verdict);
}

/// Bringing a normal form into its normal form changes nothing.
pub proof fn law_normal_form_is_stable(a: RuntimeConfig, b: RuntimeConfig, c: RuntimeConfig)
    requires
        a.normal_form(b),
        b.normal_form(c),
    ensures
        b.normal_form(b),
        same_config(b, c),
{
    let v = a.providers@;
    let w = b.providers@;
    let inside = choose|inside: Seq<ProviderConfig>| #[trigger]
        providers_sorted_inside(v, inside) && w == arranged(inside);
    let again = choose|again: Seq<ProviderConfig>| #[trigger]
        providers_sorted_inside(w, again) && c.providers@ == arranged(again);
    lemma_arranged_sorts(inside);
    assert forall|k: int| 0 <= k < w.len() implies provider_sorted(#[trigger] w[k], w[k]) by {
        assert(w.contains(w[k]));
        lemma_same_members(w, inside, w[k]);
        let j = choose|j: int| 0 <= j < inside.len() && inside[j] == w[k];
        assert(provider_sorted(v[j], inside[j]));
        lemma_arranged_sorts(v[j].required_capabilities@);
        lemma_arranged_sorts(v[j].optional_capabilities@);
        law_sorted_stays(w[k].required_capabilities@);
        law_sorted_stays(w[k].optional_capabilities@);
    }
    assert(providers_sorted_inside(w, w));
    law_sorted_stays(w);
    lemma_sorted_inside(w, w);
    lemma_sorted_inside(w, again);
    lemma_same_places(w, again);
    law_sorted_stays(again);
    lemma_arranged_sorts(a.repository.targets@);
    law_sorted_stays(b.repository.targets@);
    lemma_arranged_sorts(a.classification.rules@);
    law_sorted_stays(b.classification.rules@);
    lemma_arranged_sorts(a.policy.rules@);
    law_sorted_stays(b.policy.rules@);
    lemma_arranged_sorts(a.policy.waivers@);
    law_sorted_stays(b.policy.waivers@);
}

/// A configuration that was normalized is accepted again under the same verdict, and normalizing it
/// again changes nothing.
pub proof fn law_second_normalization_changes_nothing(
    a: RuntimeConfig,
    b: RuntimeConfig,
    c: RuntimeConfig,
    verdict: EngineVerdict,
)
    requires
        a.fault(verdict) is None,
        a.normal_form(b),
        b.normal_form(c),
    ensures
        b.fault(verdict) is None,
        same_config(b, c),
{
    law_normal_form_is_valid(a, b, verdict);
    law_normal_form_is_stable(a, b, c);
}

/// The providers are the same but for the order of their capabilities, one by one.
pub open spec fn same_providers_inside(a: Seq<ProviderConfig>, b: Seq<ProviderConfig>) -> bool {
    &&& a.len() == b.len()
    &&& forall|k: int|
        0 <= k < a.len() ==> {
            &&& (#[trigger] a[k]).adapter_id@ == b[k].adapter_id@
            &&& a[k].program@ == b[k].program@
            &&& texts(a[k].argv@) == texts(b[k].argv@)
            &&& a[k].required == b[k].required
            &&& texts(a[k].required_capabilities@).to_multiset() == texts(b[k].required_capabilities@).to_multiset()
            &&& texts(a[k].optional_capabilities@).to_multiset() == texts(b[k].optional_capabilities@).to_multiset()
        }
}

/// The providers differ in order alone: that in which they are listed, and that of their
/// capabilities. `between` has the ones in the order of the others.
pub open spec fn same_providers(a: Seq<ProviderConfig>, b: Seq<ProviderConfig>) -> bool {
    exists|between: Seq<ProviderConfig>| #[trigger]
        same_providers_inside(between, b) && a.to_multiset() == between.to_multiset()
}

/// The adapters of the providers.
spec fn adapters(v: Seq<Provider>) -> Seq<Seq<char>> {
    v.map_values(|p: Provider| p.adapter_id)
}

/// What the providers of a normal form hold is what the given ones hold once their capabilities are
/// sorted, in the order of the adapters.
proof fn lemma_normal_views(v: Seq<ProviderConfig>, w: Seq<ProviderConfig>)
    requires
        exists|inside: Seq<ProviderConfig>| #[trigger] providers_sorted_inside(v, inside) && w == arranged(inside),
    ensures
        provider_views(w).to_multiset() == normal_views(v).to_multiset(),
        vstd::relations::sorted_by(adapters(provider_views(w)), texts_in_order()),
{
    let inside = choose|inside: Seq<ProviderConfig>| #[trigger]
        providers_sorted_inside(v, inside) && w == arranged(inside);
    lemma_sorted_inside(v, inside);
    lemma_arranged_sorts(inside);
    lemma_mapped_multiset(inside, w, |p: ProviderConfig| p@);
    let ids = adapters(provider_views(w));
    let leq = texts_in_order();
    assert forall|i: int, j: int| 0 <= i < j < ids.len() implies #[trigger] leq(ids[i], ids[j]) by {
        assert(in_order(w[i].key(), w[j].key()));
        lemma_single_key(w[i].adapter_id@, w[j].adapter_id@);
    }
}

/// Two lists of providers in the order of their adapters, no two of which are the same, that hold the
/// same are the same.
proof fn lemma_providers_in_order(v: Seq<Provider>, w: Seq<Provider>)
    requires
        v.to_multiset() == w.to_multiset(),
        vstd::relations::sorted_by(adapters(v), texts_in_order()),
        vstd::relations::sorted_by(adapters(w), texts_in_order()),
        adapters(v).no_duplicates(),
    ensures
        v == w,
{
    lemma_texts_in_order();
    lemma_mapped_multiset(v, w, |p: Provider| p.adapter_id);
    vstd::seq_lib::lemma_sorted_unique(adapters(v), adapters(w), texts_in_order());
    lemma_same_length(v, w);
    assert forall|k: int| 0 <= k < v.len() implies v[k] == w[k] by {
        assert(v.contains(v[k]));
        lemma_same_members(v, w, v[k]);
        let j = choose|j: int| 0 <= j < w.len() && w[j] == v[k];
        assert(adapters(w)[j] == adapters(v)[k]);
        assert(adapters(v)[j] == adapters(v)[k]);
    }
    assert(v =~= w);
}

proof fn lemma_same_providers(
    a: Seq<ProviderConfig>,
    b: Seq<ProviderConfig>,
    na: Seq<ProviderConfig>,
    nb: Seq<ProviderConfig>,
)
    requires
        distinct(a),
        same_providers(a, b),
        exists|inside: Seq<ProviderConfig>| #[trigger] providers_sorted_inside(a, inside) && na == arranged(inside),
        exists|inside: Seq<ProviderConfig>| #[trigger] providers_sorted_inside(b, inside) && nb == arranged(inside),
    ensures
        provider_views(na) == provider_views(nb),
{
    let between = choose|between: Seq<ProviderConfig>| #[trigger]
        same_providers_inside(between, b) && a.to_multiset() == between.to_multiset();
    lemma_normal_views(a, na);
    lemma_normal_views(b, nb);
    lemma_mapped_multiset(a, between, |p: ProviderConfig| normal_view(p));
    assert forall|k: int| 0 <= k < b.len() implies normal_views(between)[k] == normal_views(b)[k] by {
        assert(between[k].adapter_id@ == b[k].adapter_id@);
        law_arranged_texts_ignore_order(between[k].required_capabilities@, b[k].required_capabilities@);
        law_arranged_texts_ignore_order(between[k].optional_capabilities@, b[k].optional_capabilities@);
    }
    assert(normal_views(between) =~= normal_views(b));
    let given = adapters(normal_views(a));
    assert forall|i: int, j: int| 0 <= i < given.len() && 0 <= j < given.len() && i != j implies given[i] != given[j] by {
        assert(a[i].key()[0] == given[i] && a[j].key()[0] == given[j]);
        if i < j {
            assert(a[i].key() != a[j].key());
        } else {
            assert(a[j].key() != a[i].key());
        }
        if given[i] == given[j] {
            assert(a[i].key() =~= a[j].key());
        }
    }
    lemma_mapped_multiset(normal_views(a), provider_views(na), |p: Provider| p.adapter_id);
    lemma_no_duplicates_permutation(given, adapters(provider_views(na)));
    lemma_providers_in_order(provider_views(na), provider_views(nb));
}

/// The order in which targets, providers, capabilities, classification rules, policy rules and
/// waivers were written does not show in the normal form, where no two of a list share their place.
pub proof fn law_normal_form_ignores_order(a: RuntimeConfig, b: RuntimeConfig, na: RuntimeConfig, nb: RuntimeConfig)
    requires
        a.normal_form(na),
        b.normal_form(nb),
        a.engine == b.engine,
        a.repository.workspace == b.repository.workspace,
        a.limits == b.limits,
        a.output == b.output,
        distinct(a.repository.targets@),
        a.repository.targets@.to_multiset() == b.repository.targets@.to_multiset(),
        distinct(a.providers@),
        same_providers(a.providers@, b.providers@),
        distinct(a.classification.rules@),
        a.classification.rules@.to_multiset() == b.classification.rules@.to_multiset(),
        distinct(a.policy.rules@),
        a.policy.rules@.to_multiset() == b.policy.rules@.to_multiset(),
        distinct(a.policy.waivers@),
        a.policy.waivers@.to_multiset() == b.policy.waivers@.to_multiset(),
    ensures
        same_config(na, nb),
{
    law_arranging_ignores_order(a.repository.targets@, b.repository.targets@);
    lemma_same_providers(a.providers@, b.providers@, na.providers@, nb.providers@);
    law_arranging_ignores_order(a.classification.rules@, b.classification.rules@);
    law_arranging_ignores_order(a.policy.rules@, b.policy.rules@);
    law_arranging_ignores_order(a.policy.waivers@, b.policy.waivers@);
}

} // verus!
