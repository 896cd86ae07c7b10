//! A single-policy evaluator that matches both resource and action exactly.
use vstd::prelude::*;
use crate::policy::{first_effect, lemma_first_effect_skip, Effect, Policy, Rule};

verus! {

/// A rule applies when its resource and its action both equal the request's.
pub open spec fn exact_pred(resource: Seq<char>, action: Seq<char>) -> spec_fn(Rule) -> bool {
    |rule: Rule| rule.resource@ == resource && rule.action@ == action
}

/// Evaluates one policy without wildcards and with the action compared.
pub struct Evaluator;

impl Evaluator {
    pub fn new() -> (r: Evaluator) {
        Evaluator
    }

    /// True exactly when the first rule of `policy` whose resource and action
    /// equal the request's allows it; no such rule means false.
    pub fn evaluate(&self, policy: &Policy, resource: &str, action: &str) -> (r: bool)
        ensures
            r == (first_effect(policy.rules@, exact_pred(resource@, action@)) == Some(Effect::Allow)),
    {
        let res = resource.to_owned();
        let act = action.to_owned();
        let mut i: usize = 0;
        while i < policy.rules.len()
            invariant
                i <= policy.rules@.len(),
                res@ == resource@,
                act@ == action@,
                forall|j: int| 0 <= j < i ==> !exact_pred(resource@, action@)(#[trigger] policy.rules@[j]),
            decreases policy.rules@.len() - i,
        {
            if policy.rules[i].resource == res && policy.rules[i].action == act {
                proof {
                    lemma_first_effect_skip(policy.rules@, exact_pred(resource@, action@), i as int);
                }
                let allowed = match policy.rules[i].effect {
                    Effect::Allow => true,
                    Effect::Deny => false,
                };
                return allowed;
            }
            i += 1;
        }
        proof {
            lemma_first_effect_skip(policy.rules@, exact_pred(resource@, action@), i as int);
        }
        false
    }
}

impl Default for Evaluator {
    fn default() -> (r: Evaluator) {
        Evaluator::new()
    }
}

} // verus!
