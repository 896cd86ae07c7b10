//! Properties of the decision pipeline, over the registry map, the policy
//! sequence and the default effect that describe a gate.
use vstd::prelude::*;
use crate::capability::{with_enabled, Capability};
use crate::gate::{gate_decision, Decision};
use crate::policy::{
    engine_effect, first_effect, lemma_first_effect_skip, lemma_policies_effect_skip,
    policies_effect, policy_names_unique, resource_matches, resource_pred, wildcard, with_policies,
    with_policy, Effect, Policy,
};

verus! {

/// A capability that is not registered is denied as not found, whatever the
/// policies and the default effect.
pub proof fn law_unregistered_is_not_found(
    reg: Map<Seq<char>, Capability>,
    ps: Seq<Policy>,
    default: Effect,
    name: Seq<char>,
)
    requires
        !reg.contains_key(name),
    ensures
        gate_decision(reg, ps, default, name) == Decision::DeniedCapabilityNotFound,
{
}

/// Disabling a registered capability makes it denied as disabled, whatever the
/// policies (an `Allow` rule naming it included) and the default effect.
pub proof fn law_disabled_is_denied(
    reg: Map<Seq<char>, Capability>,
    ps: Seq<Policy>,
    default: Effect,
    name: Seq<char>,
)
    requires
        reg.contains_key(name),
    ensures
        gate_decision(reg.insert(name, with_enabled(reg[name], false)), ps, default, name)
            == Decision::DeniedCapabilityDisabled,
{
}

/// Disabling one capability leaves the decision for every other name unchanged.
pub proof fn law_disable_leaves_others(
    reg: Map<Seq<char>, Capability>,
    ps: Seq<Policy>,
    default: Effect,
    name: Seq<char>,
    other: Seq<char>,
)
    requires
        reg.contains_key(name),
        other != name,
    ensures
        gate_decision(reg.insert(name, with_enabled(reg[name], false)), ps, default, other)
            == gate_decision(reg, ps, default, other),
{
}

/// With no policies and the default effect `Deny`, a registered and enabled
/// capability is denied as a policy violation.
pub proof fn law_no_policies_denies(reg: Map<Seq<char>, Capability>, name: Seq<char>)
    requires
        reg.contains_key(name),
        reg[name].enabled,
    ensures
        gate_decision(reg, Seq::<Policy>::empty(), Effect::Deny, name) == Decision::DeniedPolicyViolation,
{
}

/// The first applicable rule decides: when no rule of the policies before
/// `ps[i]` applies to `resource`, and no rule before `ps[i].rules[k]` does, while
/// that one does, its effect is the engine's, whatever rules follow it.
pub proof fn law_first_applicable_rule_decides(
    ps: Seq<Policy>,
    default: Effect,
    resource: Seq<char>,
    i: int,
    k: int,
)
    requires
        0 <= i < ps.len(),
        0 <= k < ps[i].rules@.len(),
        forall|j: int, m: int|
            0 <= j < i && 0 <= m < ps[j].rules@.len() ==> !resource_matches(#[trigger] ps[j].rules@[m], resource),
        forall|m: int| 0 <= m < k ==> !resource_matches(#[trigger] ps[i].rules@[m], resource),
        resource_matches(ps[i].rules@[k], resource),
    ensures
        engine_effect(ps, default, resource) == ps[i].rules@[k].effect,
{
    assert forall|j: int| 0 <= j < i implies first_effect(#[trigger] ps[j].rules@, resource_pred(resource)).is_none() by {
        let rules = ps[j].rules@;
        assert forall|m: int| 0 <= m < rules.len() implies !resource_pred(resource)(#[trigger] rules[m]) by {
            assert(!resource_matches(ps[j].rules@[m], resource));
        }
        lemma_first_effect_skip(rules, resource_pred(resource), rules.len() as int);
    }
    lemma_policies_effect_skip(ps, resource, i);
    let rules = ps[i].rules@;
    assert forall|m: int| 0 <= m < k implies !resource_pred(resource)(#[trigger] rules[m]) by {
        assert(!resource_matches(ps[i].rules@[m], resource));
    }
    lemma_first_effect_skip(rules, resource_pred(resource), k);
    assert(rules.subrange(k, rules.len() as int)[0] == rules[k]);
    let rest = ps.subrange(i, ps.len() as int);
    assert(rest[0] == ps[i]);
    assert(policies_effect(rest, resource) == Some(rules[k].effect));
}

/// A policy that denies `x` and then allows `x` denies `x`: the later rule is
/// never reached for that resource.
pub proof fn law_deny_then_allow_denies(p: Policy, default: Effect, x: Seq<char>)
    requires
        p.rules@.len() == 2,
        p.rules@[0].effect == Effect::Deny,
        p.rules@[0].resource@ == x,
        p.rules@[1].effect == Effect::Allow,
        p.rules@[1].resource@ == x,
    ensures
        engine_effect(seq![p], default, x) == Effect::Deny,
{
    law_first_applicable_rule_decides(seq![p], default, x, 0, 0);
}

/// A specific deny placed before a wildcard allow in one policy still denies
/// the specific resource: order decides, not specificity.
pub proof fn law_specific_deny_before_wildcard_allow(p: Policy, default: Effect, x: Seq<char>)
    requires
        p.rules@.len() == 2,
        p.rules@[0].effect == Effect::Deny,
        p.rules@[0].resource@ == x,
        p.rules@[1].effect == Effect::Allow,
        p.rules@[1].resource@ == wildcard(),
    ensures
        engine_effect(seq![p], default, x) == Effect::Deny,
{
    law_first_applicable_rule_decides(seq![p], default, x, 0, 0);
}

/// Adding an engine's policies, in their order, to an engine with none gives
/// back the same policies; so every resource evaluates as before.
pub proof fn law_reload_keeps_policies(ps: Seq<Policy>, default: Effect)
    requires
        policy_names_unique(ps),
    ensures
        with_policies(Seq::<Policy>::empty(), ps) == ps,
        forall|x: Seq<char>|
            engine_effect(#[trigger] with_policies(Seq::<Policy>::empty(), ps), default, x)
                == engine_effect(ps, default, x),
    decreases ps.len(),
{
    if ps.len() > 0 {
        let init = ps.drop_last();
        assert(policy_names_unique(init));
        law_reload_keeps_policies(init, default);
        assert(!(exists|i: int| 0 <= i < init.len() && init[i].name@ == ps.last().name@)) by {
            if exists|i: int| 0 <= i < init.len() && init[i].name@ == ps.last().name@ {
                let i = choose|i: int| 0 <= i < init.len() && init[i].name@ == ps.last().name@;
                assert(ps[i].name@ != ps[ps.len() - 1].name@);
            }
        }
        assert(with_policy(init, ps.last()) =~= ps);
    } else {
        assert(with_policies(Seq::<Policy>::empty(), ps) =~= ps);
    }
}

} // verus!
