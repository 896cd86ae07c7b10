//! The capability gate: one definitive decision per request.
//!
//! Checks run in a fixed order: the capability must be registered, then enabled,
//! and only then is the policy engine consulted. An unknown or disabled
//! capability is never authorized, whatever the policies say.
use vstd::prelude::*;
use crate::capability::{Capability, CapabilityRegistry};
use crate::policy::{engine_effect, with_policy, Effect, Policy, PolicyEngine};
use crate::capability::with_enabled;

verus! {

/// The outcome of one authorization request.
#[derive(Clone, Copy, Debug, PartialEq, Eq, Structural)]
pub enum Decision {
    Authorized,
    DeniedCapabilityNotFound,
    DeniedCapabilityDisabled,
    DeniedPolicyViolation,
}

/// The stable audit code of each decision.
pub open spec fn decision_code(d: Decision) -> Seq<char> {
    match d {
        Decision::Authorized => "AUTHORIZED"@,
        Decision::DeniedCapabilityNotFound => "DENIED_CAPABILITY_NOT_FOUND"@,
        Decision::DeniedCapabilityDisabled => "DENIED_CAPABILITY_DISABLED"@,
        Decision::DeniedPolicyViolation => "DENIED_POLICY_VIOLATION"@,
    }
}

/// The decision for `tool` given the registry `reg`, the policies `ps` and the
/// default effect `default`.
pub open spec fn gate_decision(
    reg: Map<Seq<char>, Capability>,
    ps: Seq<Policy>,
    default: Effect,
    tool: Seq<char>,
) -> Decision {
    if !reg.contains_key(tool) {
        Decision::DeniedCapabilityNotFound
    } else if !reg[tool].enabled {
        Decision::DeniedCapabilityDisabled
    } else {
        match engine_effect(ps, default, tool) {
            Effect::Allow => Decision::Authorized,
            Effect::Deny => Decision::DeniedPolicyViolation,
        }
    }
}

impl Decision {
    pub fn is_allowed(&self) -> (r: bool)
        ensures
            r == (*self == Decision::Authorized),
    {
        match self {
            Decision::Authorized => true,
            _ => false,
        }
    }

    /// The audit code of this decision.
    pub fn as_str(&self) -> (r: &'static str)
        ensures
            r@ == decision_code(*self),
    {
        match self {
            Decision::Authorized => "AUTHORIZED",
            Decision::DeniedCapabilityNotFound => "DENIED_CAPABILITY_NOT_FOUND",
            Decision::DeniedCapabilityDisabled => "DENIED_CAPABILITY_DISABLED",
            Decision::DeniedPolicyViolation => "DENIED_POLICY_VIOLATION",
        }
    }
}

/// Owns a registry and a policy engine and decides each request from both.
pub struct CapabilityGate {
    registry: CapabilityRegistry,
    engine: PolicyEngine,
}

impl CapabilityGate {
    pub closed spec fn wf(&self) -> bool {
        self.registry.wf() && self.engine.wf()
    }

    /// The registered capabilities, by name.
    pub closed spec fn capabilities(&self) -> Map<Seq<char>, Capability> {
        self.registry@
    }

    /// The engine's policies, in order.
    pub closed spec fn policy_seq(&self) -> Seq<Policy> {
        self.engine.policy_seq()
    }

    /// The engine's default effect.
    pub closed spec fn spec_default_effect(&self) -> Effect {
        self.engine.spec_default_effect()
    }

    /// A gate with no capabilities, no policies and default effect `Deny`.
    pub fn new() -> (r: CapabilityGate)
        ensures
            r.wf(),
            r.capabilities() == Map::<Seq<char>, Capability>::empty(),
            r.policy_seq() == Seq::<Policy>::empty(),
            r.spec_default_effect() == Effect::Deny,
    {
        CapabilityGate {
            registry: CapabilityRegistry::new(),
            engine: PolicyEngine::new().with_default_effect(Effect::Deny),
        }
    }

    /// This gate with its registry replaced by `registry`.
    pub fn with_registry(self, registry: CapabilityRegistry) -> (r: CapabilityGate)
        requires
            self.wf(),
            registry.wf(),
        ensures
            r.wf(),
            r.capabilities() == registry@,
            r.policy_seq() == self.policy_seq(),
            r.spec_default_effect() == self.spec_default_effect(),
    {
        let mut g = self;
        g.registry = registry;
        g
    }

    /// This gate with its policy engine replaced by `engine`.
    pub fn with_engine(self, engine: PolicyEngine) -> (r: CapabilityGate)
        requires
            self.wf(),
            engine.wf(),
        ensures
            r.wf(),
            r.capabilities() == self.capabilities(),
            r.policy_seq() == engine.policy_seq(),
            r.spec_default_effect() == engine.spec_default_effect(),
    {
        let mut g = self;
        g.engine = engine;
        g
    }

    pub fn register_capability(&mut self, capability: Capability)
        requires
            old(self).wf(),
        ensures
            final(self).wf(),
            final(self).capabilities() == old(self).capabilities().insert(capability.name@, capability),
            final(self).policy_seq() == old(self).policy_seq(),
            final(self).spec_default_effect() == old(self).spec_default_effect(),
    {
        self.registry.register(capability);
    }

    pub fn add_policy(&mut self, policy: Policy)
        requires
            old(self).wf(),
        ensures
            final(self).wf(),
            final(self).capabilities() == old(self).capabilities(),
            final(self).policy_seq() == with_policy(old(self).policy_seq(), policy),
            final(self).spec_default_effect() == old(self).spec_default_effect(),
    {
        self.engine.add_policy(policy);
    }

    /// Enables the capability named `name`; false when none is registered.
    pub fn enable_capability(&mut self, name: &str) -> (r: bool)
        requires
            old(self).wf(),
        ensures
            final(self).wf(),
            r == old(self).capabilities().contains_key(name@),
            final(self).capabilities() == (if r {
                old(self).capabilities().insert(name@, with_enabled(old(self).capabilities()[name@], true))
            } else {
                old(self).capabilities()
            }),
            final(self).policy_seq() == old(self).policy_seq(),
            final(self).spec_default_effect() == old(self).spec_default_effect(),
    {
        self.registry.enable(name)
    }

    /// Disables the capability named `name`; false when none is registered.
    pub fn disable_capability(&mut self, name: &str) -> (r: bool)
        requires
            old(self).wf(),
        ensures
            final(self).wf(),
            r == old(self).capabilities().contains_key(name@),
            final(self).capabilities() == (if r {
                old(self).capabilities().insert(name@, with_enabled(old(self).capabilities()[name@], false))
            } else {
                old(self).capabilities()
            }),
            final(self).policy_seq() == old(self).policy_seq(),
            final(self).spec_default_effect() == old(self).spec_default_effect(),
    {
        self.registry.disable(name)
    }

    /// The decision for `tool`; `args` does not take part in it.
    pub fn authorize(&self, tool: &str, args: &serde_json::Value) -> (r: Decision)
        requires
            self.wf(),
        ensures
            r == gate_decision(self.capabilities(), self.policy_seq(), self.spec_default_effect(), tool@),
    {
        self.decide(tool)
    }

    /// Whether `tool` is authorized.
    pub fn check(&self, tool: &str) -> (r: bool)
        requires
            self.wf(),
        ensures
            r == (gate_decision(self.capabilities(), self.policy_seq(), self.spec_default_effect(), tool@)
                == Decision::Authorized),
    {
        self.decide(tool).is_allowed()
    }

    fn decide(&self, tool: &str) -> (r: Decision)
        requires
            self.wf(),
        ensures
            r == gate_decision(self.capabilities(), self.policy_seq(), self.spec_default_effect(), tool@),
    {
        if !self.registry.is_registered(tool) {
            return Decision::DeniedCapabilityNotFound;
        }
        if !self.registry.is_enabled(tool) {
            return Decision::DeniedCapabilityDisabled;
        }
        match self.engine.evaluate_resource(tool) {
            Effect::Allow => Decision::Authorized,
            Effect::Deny => Decision::DeniedPolicyViolation,
        }
    }
}

impl Default for CapabilityGate {
    fn default() -> (r: CapabilityGate)
        ensures
            r.wf(),
            r.capabilities() == Map::<Seq<char>, Capability>::empty(),
            r.policy_seq() == Seq::<Policy>::empty(),
            r.spec_default_effect() == Effect::Deny,
    {
        CapabilityGate::new()
    }
}

} // verus!
