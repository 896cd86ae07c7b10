use femtoclaw_policy::{Capability, CapabilityGate, CapabilityRegistry, Decision, Policy, PolicyEngine, Rule};

fn no_args() -> serde_json::Value {
    serde_json::Value::Object(serde_json::Map::new())
}

#[test]
fn gate_test_unknown_capability() {
    let gate = CapabilityGate::new();
    let result = gate.authorize("unknown", &no_args());
    assert_eq!(result, Decision::DeniedCapabilityNotFound);
}

#[test]
fn test_disabled_capability() {
    let mut gate = CapabilityGate::new();
    gate.register_capability(Capability::new("shell", "Shell commands"));
    gate.disable_capability("shell");

    let result = gate.authorize("shell", &no_args());
    assert_eq!(result, Decision::DeniedCapabilityDisabled);
}

#[test]
fn test_allowed_by_policy() {
    let mut gate = CapabilityGate::new();
    gate.register_capability(Capability::new("fs.read", "Read files"));

    let policy = Policy::new("default", "1.0").with_rule(Rule::allow("fs.read"));
    gate.add_policy(policy);

    let result = gate.authorize("fs.read", &no_args());
    assert_eq!(result, Decision::Authorized);
}

#[test]
fn test_denied_by_policy() {
    let mut gate = CapabilityGate::new();
    gate.register_capability(Capability::new("shell", "Shell commands"));

    let policy = Policy::new("default", "1.0").with_rule(Rule::deny("shell"));
    gate.add_policy(policy);

    let result = gate.authorize("shell", &no_args());
    assert_eq!(result, Decision::DeniedPolicyViolation);
}

fn scenario_gate() -> CapabilityGate {
    let mut gate = CapabilityGate::new();
    gate.register_capability(Capability::new("fs.read", "Read files"));
    gate.register_capability(Capability::new("shell", "Shell commands"));
    gate.add_policy(
        Policy::new("default", "1.0")
            .with_rule(Rule::allow("fs.read"))
            .with_rule(Rule::deny("shell")),
    );
    gate
}

#[test]
fn scenario_mixed_requests() {
    let gate = scenario_gate();
    assert_eq!(gate.authorize("fs.read", &no_args()), Decision::Authorized);
    assert_eq!(gate.authorize("shell", &no_args()), Decision::DeniedPolicyViolation);
    assert_eq!(gate.authorize("unknown", &no_args()), Decision::DeniedCapabilityNotFound);
    assert_eq!(gate.authorize("network", &no_args()), Decision::DeniedCapabilityNotFound);
}

#[test]
fn scenario_registered_without_rule_falls_to_default() {
    let mut gate = scenario_gate();
    gate.register_capability(Capability::new("network", "Network access"));
    assert_eq!(gate.authorize("network", &no_args()), Decision::DeniedPolicyViolation);
}

#[test]
fn scenario_disable_flips_only_that_capability() {
    let mut gate = scenario_gate();
    assert!(gate.disable_capability("fs.read"));
    assert_eq!(gate.authorize("fs.read", &no_args()), Decision::DeniedCapabilityDisabled);
    assert_eq!(gate.authorize("shell", &no_args()), Decision::DeniedPolicyViolation);
    assert!(gate.enable_capability("fs.read"));
    assert_eq!(gate.authorize("fs.read", &no_args()), Decision::Authorized);
}

#[test]
fn disabled_wins_over_allow_rule() {
    let mut gate = CapabilityGate::new();
    gate.register_capability(Capability::new("shell", "Shell commands"));
    gate.add_policy(Policy::new("p", "1").with_rule(Rule::allow("*")).with_rule(Rule::allow("shell")));
    gate.disable_capability("shell");
    assert_eq!(gate.authorize("shell", &no_args()), Decision::DeniedCapabilityDisabled);
    assert!(!gate.disable_capability("unknown"));
}

#[test]
fn unknown_never_authorized_by_wildcard() {
    let mut gate = CapabilityGate::new();
    gate.add_policy(Policy::new("p", "1").with_rule(Rule::allow("*")));
    assert_eq!(gate.authorize("anything", &no_args()), Decision::DeniedCapabilityNotFound);
    assert!(!gate.check("anything"));
}

#[test]
fn no_policies_means_policy_violation() {
    let mut gate = CapabilityGate::default();
    gate.register_capability(Capability::new("fs.read", "Read files"));
    assert_eq!(gate.authorize("fs.read", &no_args()), Decision::DeniedPolicyViolation);
    assert!(!gate.check("fs.read"));
}

#[test]
fn check_matches_authorize() {
    let gate = scenario_gate();
    assert!(gate.check("fs.read"));
    assert!(!gate.check("shell"));
    assert!(!gate.check("unknown"));
}

#[test]
fn builders_replace_components() {
    let mut registry = CapabilityRegistry::new();
    registry.register(Capability::new("web.get", "Fetch"));
    let mut engine = PolicyEngine::new();
    engine.add_policy(Policy::new("p", "1").with_rule(Rule::allow("web.get")));
    let gate = CapabilityGate::new().with_registry(registry).with_engine(engine);
    assert_eq!(gate.authorize("web.get", &no_args()), Decision::Authorized);
}

#[test]
fn decision_codes_and_allowed() {
    assert_eq!(Decision::Authorized.as_str(), "AUTHORIZED");
    assert_eq!(Decision::DeniedCapabilityNotFound.as_str(), "DENIED_CAPABILITY_NOT_FOUND");
    assert_eq!(Decision::DeniedCapabilityDisabled.as_str(), "DENIED_CAPABILITY_DISABLED");
    assert_eq!(Decision::DeniedPolicyViolation.as_str(), "DENIED_POLICY_VIOLATION");
    assert!(Decision::Authorized.is_allowed());
    assert!(!Decision::DeniedCapabilityNotFound.is_allowed());
    assert!(!Decision::DeniedCapabilityDisabled.is_allowed());
    assert!(!Decision::DeniedPolicyViolation.is_allowed());
}
