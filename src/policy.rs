//! Policy rules and the policy engine.
//!
//! The engine keeps its policies in the order in which they were first added, so
//! that precedence across policies is deterministic: the first rule that matches,
//! scanning policies in that order and each policy's rules in declared order,
//! decides. When no rule matches, the engine's default effect decides; it starts
//! at `Deny`.
use vstd::prelude::*;

verus! {

/// `serde_json::Value` is carried through rule conditions unread.
#[verifier::external_type_specification]
#[verifier::external_body]
pub struct ExJsonValue(serde_json::Value);

/// The outcome that a rule, or an engine's default, produces.
#[derive(Clone, Copy, Debug, PartialEq, Eq, Structural)]
pub enum Effect {
    Allow,
    Deny,
}

impl Default for Effect {
    fn default() -> (r: Effect)
        ensures
            r == Effect::Deny,
    {
        Effect::Deny
    }
}

/// An attribute predicate attached to a rule. Conditions are part of the data
/// model; evaluation does not consult them.
pub struct Condition {
    pub key: String,
    pub operator: String,
    pub value: serde_json::Value,
}

/// A candidate match against a requested resource.
pub struct Rule {
    pub effect: Effect,
    pub principal: String,
    pub resource: String,
    pub action: String,
    pub conditions: Vec<Condition>,
}

/// A named, ordered bundle of rules.
pub struct Policy {
    pub name: String,
    pub version: String,
    pub rules: Vec<Rule>,
}

/// The wildcard resource, which matches every request.
pub open spec fn wildcard() -> Seq<char> {
    seq!['*']
}

/// A rule applies to `resource` when it names it or is the wildcard.
pub open spec fn resource_matches(rule: Rule, resource: Seq<char>) -> bool {
    rule.resource@ == resource || rule.resource@ == wildcard()
}

pub open spec fn resource_pred(resource: Seq<char>) -> spec_fn(Rule) -> bool {
    |rule: Rule| resource_matches(rule, resource)
}

/// The effect of the first rule of `rules` that satisfies `pred`, if any.
pub open spec fn first_effect(rules: Seq<Rule>, pred: spec_fn(Rule) -> bool) -> Option<Effect>
    decreases rules.len(),
{
    if rules.len() == 0 {
        None
    } else if pred(rules[0]) {
        Some(rules[0].effect)
    } else {
        first_effect(rules.drop_first(), pred)
    }
}

/// The effect of the first rule that applies to `resource`, scanning the
/// policies in order and each policy's rules in order.
pub open spec fn policies_effect(ps: Seq<Policy>, resource: Seq<char>) -> Option<Effect>
    decreases ps.len(),
{
    if ps.len() == 0 {
        None
    } else {
        match first_effect(ps[0].rules@, resource_pred(resource)) {
            Some(e) => Some(e),
            None => policies_effect(ps.drop_first(), resource),
        }
    }
}

/// What an engine with policies `ps` and default `default` decides for `resource`.
pub open spec fn engine_effect(ps: Seq<Policy>, default: Effect, resource: Seq<char>) -> Effect {
    match policies_effect(ps, resource) {
        Some(e) => e,
        None => default,
    }
}

/// No two policies of `ps` share a name.
pub open spec fn policy_names_unique(ps: Seq<Policy>) -> bool {
    forall|i: int, j: int|
        0 <= i < ps.len() && 0 <= j < ps.len() && i != j ==> ps[i].name@ != ps[j].name@
}

/// `ps` with `p` added: it replaces the policy of the same name in place, or
/// goes last when there is none.
pub open spec fn with_policy(ps: Seq<Policy>, p: Policy) -> Seq<Policy> {
    if exists|i: int| 0 <= i < ps.len() && ps[i].name@ == p.name@ {
        ps.update(choose|i: int| 0 <= i < ps.len() && ps[i].name@ == p.name@, p)
    } else {
        ps.push(p)
    }
}

/// `ps` with each policy of `added` added in turn.
pub open spec fn with_policies(ps: Seq<Policy>, added: Seq<Policy>) -> Seq<Policy>
    decreases added.len(),
{
    if added.len() == 0 {
        ps
    } else {
        with_policy(with_policies(ps, added.drop_last()), added.last())
    }
}

/// Skipping rules that fail `pred` does not change the first effect.
pub proof fn lemma_first_effect_skip(rules: Seq<Rule>, pred: spec_fn(Rule) -> bool, i: int)
    requires
        0 <= i <= rules.len(),
        forall|j: int| 0 <= j < i ==> !pred(#[trigger] rules[j]),
    ensures
        first_effect(rules, pred) == first_effect(rules.subrange(i, rules.len() as int), pred),
    decreases i,
{
    if i == 0 {
        assert(rules.subrange(0, rules.len() as int) =~= rules);
    } else {
        let rest = rules.drop_first();
        assert forall|j: int| 0 <= j < i - 1 implies !pred(#[trigger] rest[j]) by {
            assert(rest[j] == rules[j + 1]);
        }
        lemma_first_effect_skip(rest, pred, i - 1);
        assert(rest.subrange(i - 1, rest.len() as int) =~= rules.subrange(i, rules.len() as int));
    }
}

/// Skipping policies with no applicable rule does not change the effect.
pub proof fn lemma_policies_effect_skip(ps: Seq<Policy>, resource: Seq<char>, i: int)
    requires
        0 <= i <= ps.len(),
        forall|j: int| 0 <= j < i ==> first_effect(#[trigger] ps[j].rules@, resource_pred(resource)).is_none(),
    ensures
        policies_effect(ps, resource) == policies_effect(ps.subrange(i, ps.len() as int), resource),
    decreases i,
{
    if i == 0 {
        assert(ps.subrange(0, ps.len() as int) =~= ps);
    } else {
        let rest = ps.drop_first();
        assert(first_effect(ps[0].rules@, resource_pred(resource)).is_none());
        assert forall|j: int| 0 <= j < i - 1 implies first_effect(#[trigger] rest[j].rules@, resource_pred(resource)).is_none() by {
            assert(rest[j] == ps[j + 1]);
        }
        lemma_policies_effect_skip(rest, resource, i - 1);
        assert(rest.subrange(i - 1, rest.len() as int) =~= ps.subrange(i, ps.len() as int));
    }
}

impl Policy {
    /// A policy with no rules.
    pub fn new(name: &str, version: &str) -> (r: Policy)
        ensures
            r.name@ == name@,
            r.version@ == version@,
            r.rules@.len() == 0,
    {
        Policy { name: name.to_owned(), version: version.to_owned(), rules: Vec::new() }
    }

    /// This policy with `rule` appended to its rules.
    pub fn with_rule(self, rule: Rule) -> (r: Policy)
        ensures
            r.name == self.name,
            r.version == self.version,
            r.rules@ == self.rules@.push(rule),
    {
        let mut p = self;
        p.rules.push(rule);
        p
    }
}

impl Rule {
    /// A rule that allows `resource` to any principal, for action `execute`.
    pub fn allow(resource: &str) -> (r: Rule)
        ensures
            r.effect == Effect::Allow,
            r.principal@ == wildcard(),
            r.resource@ == resource@,
            r.action@ == "execute"@,
            r.conditions@.len() == 0,
    {
        proof {
            reveal_strlit("*");
        }
        Rule {
            effect: Effect::Allow,
            principal: "*".to_owned(),
            resource: resource.to_owned(),
            action: "execute".to_owned(),
            conditions: Vec::new(),
        }
    }

    /// A rule that denies `resource` to any principal, for action `execute`.
    pub fn deny(resource: &str) -> (r: Rule)
        ensures
            r.effect == Effect::Deny,
            r.principal@ == wildcard(),
            r.resource@ == resource@,
            r.action@ == "execute"@,
            r.conditions@.len() == 0,
    {
        proof {
            reveal_strlit("*");
        }
        Rule {
            effect: Effect::Deny,
            principal: "*".to_owned(),
            resource: resource.to_owned(),
            action: "execute".to_owned(),
            conditions: Vec::new(),
        }
    }

    /// This rule with its conditions replaced by `conditions`.
    pub fn with_conditions(self, conditions: Vec<Condition>) -> (r: Rule)
        ensures
            r.effect == self.effect,
            r.principal == self.principal,
            r.resource == self.resource,
            r.action == self.action,
            r.conditions == conditions,
    {
        let mut rule = self;
        rule.conditions = conditions;
        rule
    }
}

/// The effect of the first rule of `rules` that applies to `resource`.
fn rules_effect(rules: &Vec<Rule>, resource: &String) -> (r: Option<Effect>)
    ensures
        r == first_effect(rules@, resource_pred(resource@)),
{
    let star = "*".to_owned();
    proof {
        reveal_strlit("*");
    }
    let mut i: usize = 0;
    while i < rules.len()
        invariant
            i <= rules@.len(),
            star@ == wildcard(),
            forall|j: int| 0 <= j < i ==> !resource_pred(resource@)(#[trigger] rules@[j]),
        decreases rules@.len() - i,
    {
        if rules[i].resource == *resource || rules[i].resource == star {
            proof {
                lemma_first_effect_skip(rules@, resource_pred(resource@), i as int);
            }
            return Some(rules[i].effect);
        }
        i += 1;
    }
    proof {
        lemma_first_effect_skip(rules@, resource_pred(resource@), i as int);
    }
    None
}

/// A collection of uniquely named policies and a default effect.
pub struct PolicyEngine {
    policies: Vec<Policy>,
    default_effect: Effect,
}

impl PolicyEngine {
    pub closed spec fn wf(&self) -> bool {
        policy_names_unique(self.policies@)
    }

    /// The policies, in the order in which they were first added.
    pub closed spec fn policy_seq(&self) -> Seq<Policy> {
        self.policies@
    }

    /// The effect returned when no rule applies.
    pub closed spec fn spec_default_effect(&self) -> Effect {
        self.default_effect
    }

    fn find(&self, name: &String) -> (r: Option<usize>)
        ensures
            match r {
                Some(i) => i < self.policies@.len() && self.policies@[i as int].name@ == name@,
                None => forall|j: int| 0 <= j < self.policies@.len() ==> self.policies@[j].name@ != name@,
            },
    {
        let mut i: usize = 0;
        while i < self.policies.len()
            invariant
                i <= self.policies@.len(),
                forall|j: int| 0 <= j < i ==> self.policies@[j].name@ != name@,
            decreases self.policies@.len() - i,
        {
            if self.policies[i].name == *name {
                return Some(i);
            }
            i += 1;
        }
        None
    }

    /// An engine with no policies and default effect `Deny`.
    pub fn new() -> (r: PolicyEngine)
        ensures
            r.wf(),
            r.policy_seq() == Seq::<Policy>::empty(),
            r.spec_default_effect() == Effect::Deny,
    {
        let r = PolicyEngine { policies: Vec::new(), default_effect: Effect::Deny };
        assert(r.policies@ =~= Seq::<Policy>::empty());
        r
    }

    /// The policies, in the order in which they were first added.
    pub fn policies(&self) -> (r: &Vec<Policy>)
        ensures
            r@ == self.policy_seq(),
    {
        &self.policies
    }

    /// The effect returned when no rule applies.
    pub fn default_effect(&self) -> (r: Effect)
        ensures
            r == self.spec_default_effect(),
    {
        self.default_effect
    }

    /// This engine with its default effect replaced by `effect`.
    pub fn with_default_effect(self, effect: Effect) -> (r: PolicyEngine)
        requires
            self.wf(),
        ensures
            r.wf(),
            r.policy_seq() == self.policy_seq(),
            r.spec_default_effect() == effect,
    {
        let mut e = self;
        e.default_effect = effect;
        e
    }

    /// Adds `policy`, replacing the policy of the same name in place.
    pub fn add_policy(&mut self, policy: Policy)
        requires
            old(self).wf(),
        ensures
            final(self).wf(),
            final(self).policy_seq() == with_policy(old(self).policy_seq(), policy),
            final(self).spec_default_effect() == old(self).spec_default_effect(),
    {
        let ghost ps = self.policies@;
        let ghost p = policy;
        match self.find(&policy.name) {
            Some(i) => {
                proof {
                    let k = choose|k: int| 0 <= k < ps.len() && ps[k].name@ == p.name@;
                    assert(k == i);
                }
                self.policies.set(i, policy);
            },
            None => {
                self.policies.push(policy);
            },
        }
        assert(self.policies@ =~= with_policy(ps, p));
    }

    /// Adds each of `policies` in turn.
    pub fn add_policies(&mut self, policies: Vec<Policy>)
        requires
            old(self).wf(),
        ensures
            final(self).wf(),
            final(self).policy_seq() == with_policies(old(self).policy_seq(), policies@),
            final(self).spec_default_effect() == old(self).spec_default_effect(),
    {
        let ghost all = policies@;
        let ghost start = self.policies@;
        let mut rest = policies;
        let ghost mut k: int = 0;
        while rest.len() > 0
            invariant
                self.wf(),
                0 <= k <= all.len(),
                rest@ == all.subrange(k, all.len() as int),
                self.policy_seq() == with_policies(start, all.subrange(0, k)),
                self.spec_default_effect() == old(self).spec_default_effect(),
            decreases rest@.len(),
        {
            let p = rest.remove(0);
            self.add_policy(p);
            proof {
                assert(all.subrange(0, k + 1).drop_last() =~= all.subrange(0, k));
                k = k + 1;
                assert(rest@ =~= all.subrange(k, all.len() as int));
            }
        }
        assert(all.subrange(0, k) =~= all);
    }

    /// The effect for `resource`. `action` and `args` do not take part in
    /// matching.
    pub fn evaluate(&self, resource: &str, action: &str, args: &serde_json::Value) -> (r: Effect)
        ensures
            r == engine_effect(self.policy_seq(), self.spec_default_effect(), resource@),
    {
        self.evaluate_resource(resource)
    }

    /// The effect of the first rule that applies to `resource`, or the default.
    pub fn evaluate_resource(&self, resource: &str) -> (r: Effect)
        ensures
            r == engine_effect(self.policy_seq(), self.spec_default_effect(), resource@),
    {
        let res = resource.to_owned();
        let mut i: usize = 0;
        while i < self.policies.len()
            invariant
                i <= self.policies@.len(),
                res@ == resource@,
                forall|j: int| 0 <= j < i ==> first_effect(#[trigger] self.policies@[j].rules@, resource_pred(resource@)).is_none(),
            decreases self.policies@.len() - i,
        {
            match rules_effect(&self.policies[i].rules, &res) {
                Some(e) => {
                    proof {
                        lemma_policies_effect_skip(self.policies@, resource@, i as int);
                    }
                    return e;
                },
                None => {},
            }
            i += 1;
        }
        proof {
            lemma_policies_effect_skip(self.policies@, resource@, i as int);
        }
        self.default_effect
    }
}

impl Default for PolicyEngine {
    fn default() -> (r: PolicyEngine)
        ensures
            r.wf(),
            r.policy_seq() == Seq::<Policy>::empty(),
            r.spec_default_effect() == Effect::Deny,
    {
        PolicyEngine::new()
    }
}

} // verus!
