use femtoclaw_policy::{Capability, CapabilityParam, CapabilityRegistry};

#[test]
fn test_register_capability() {
    let mut registry = CapabilityRegistry::new();
    let cap = Capability::new("fs.read", "Read files from filesystem");
    registry.register(cap);

    assert!(registry.is_registered("fs.read"));
    assert!(registry.is_enabled("fs.read"));
}

#[test]
fn test_disable_capability() {
    let mut registry = CapabilityRegistry::new();
    let cap = Capability::new("shell", "Execute shell commands");
    registry.register(cap);

    registry.disable("shell");
    assert!(!registry.is_enabled("shell"));
}

#[test]
fn capability_test_unknown_capability() {
    let registry = CapabilityRegistry::new();
    assert!(!registry.is_registered("unknown"));
}

#[test]
fn unknown_capability_is_not_enabled() {
    let registry = CapabilityRegistry::new();
    assert!(!registry.is_enabled("unknown"));
    assert!(registry.get("unknown").is_none());
}

#[test]
fn enable_and_disable_report_existence() {
    let mut registry = CapabilityRegistry::new();
    assert!(!registry.enable("ghost"));
    assert!(!registry.disable("ghost"));
    assert!(!registry.is_registered("ghost"));

    registry.register(Capability::new("shell", "Execute shell commands"));
    assert!(registry.disable("shell"));
    assert!(!registry.is_enabled("shell"));
    assert!(registry.is_registered("shell"));
    assert!(registry.enable("shell"));
    assert!(registry.is_enabled("shell"));
}

#[test]
fn register_overwrites_same_name() {
    let mut registry = CapabilityRegistry::new();
    registry.register(Capability::new("fs.read", "first"));
    let mut second = Capability::new("fs.read", "second");
    second.disable();
    registry.register(second);

    assert_eq!(registry.list().len(), 1);
    let got = registry.get("fs.read").unwrap();
    assert_eq!(got.description, "second");
    assert!(!got.enabled);
    assert!(!registry.is_enabled("fs.read"));
}

#[test]
fn list_holds_each_capability_once() {
    let mut registry = CapabilityRegistry::new();
    registry.register(Capability::new("a", "A"));
    registry.register(Capability::new("b", "B"));
    registry.register(Capability::new("a", "A again"));

    let listed = registry.list();
    assert_eq!(listed.len(), 2);
    let mut names: Vec<String> = listed.iter().map(|c| c.name.clone()).collect();
    names.sort();
    assert_eq!(names, vec!["a".to_string(), "b".to_string()]);
}

#[test]
fn capability_builders() {
    let cap = Capability::new("fs.read", "Read files").with_params(vec![CapabilityParam {
        name: "path".to_string(),
        param_type: "string".to_string(),
        required: true,
    }]);
    assert_eq!(cap.name, "fs.read");
    assert_eq!(cap.description, "Read files");
    assert!(cap.enabled);
    assert_eq!(cap.parameters.len(), 1);
    assert_eq!(cap.parameters[0].name, "path");

    let mut cap = cap;
    cap.disable();
    assert!(!cap.enabled);
    cap.enable();
    assert!(cap.enabled);
}
