use monx::api::{get_agents, register_agent};
use monx::registry::{Agent, AgentRegistry, Capability, RawCapability};

fn raw(name: &str, value: Option<bool>) -> RawCapability {
    RawCapability { name: name.to_string(), value }
}

#[test]
fn registration_round_trip() {
    let mut registry = AgentRegistry::new();
    register_agent(
        &mut registry,
        Some("edge-1".to_string()),
        Some(vec![raw("metrics", Some(true)), raw("logs", Some(false))]),
        "2026-10-28T12:00:00+00:00",
    );
    let listed = get_agents(&registry);
    assert!(listed.success);
    assert_eq!(listed.data.len(), 1);
    let agent = &listed.data[0];
    assert_eq!(agent.name, "edge-1");
    assert_eq!(agent.capability("metrics"), Some(true));
    assert_eq!(agent.capability("logs"), Some(false));
    assert_eq!(agent.capability("traces"), None);
    assert!(!agent.last_seen.is_empty());
    assert_eq!(agent.last_seen, "2026-10-28T12:00:00+00:00");
}

#[test]
fn reregistration_overwrites_the_entry() {
    let mut registry = AgentRegistry::new();
    registry.register(Some("edge-1".to_string()), Some(vec![raw("metrics", Some(true))]), "t1");
    registry.register(Some("edge-2".to_string()), None, "t2");
    registry.register(Some("edge-1".to_string()), Some(vec![raw("logs", Some(true))]), "t3");
    assert_eq!(registry.len(), 2);
    let agents = registry.get_agents();
    assert_eq!(
        agents,
        vec![
            Agent {
                name: "edge-1".to_string(),
                last_seen: "t3".to_string(),
                capabilities: vec![Capability { name: "logs".to_string(), enabled: true }],
            },
            Agent { name: "edge-2".to_string(), last_seen: "t2".to_string(), capabilities: vec![] },
        ]
    );
    assert_eq!(registry.lookup("edge-1").unwrap().capability("metrics"), None);
    assert!(registry.lookup("edge-3").is_none());
}

#[test]
fn registration_defaults() {
    let mut registry = AgentRegistry::new();
    registry.register(None, Some(vec![raw("metrics", None), raw("logs", Some(true))]), "t1");
    let agent = registry.lookup("unknown").unwrap();
    assert_eq!(agent.name, "unknown");
    assert_eq!(agent.capability("metrics"), Some(false));
    assert_eq!(agent.capability("logs"), Some(true));
    registry.register(None, None, "t2");
    assert_eq!(registry.len(), 1);
    let agent = registry.lookup("unknown").unwrap();
    assert!(agent.capabilities.is_empty());
    assert_eq!(agent.last_seen, "t2");
}

#[test]
fn last_announced_capability_decides() {
    let mut registry = AgentRegistry::new();
    registry.register(
        Some("a".to_string()),
        Some(vec![raw("metrics", Some(true)), raw("metrics", Some(false))]),
        "t",
    );
    let agent = registry.lookup("a").unwrap();
    assert_eq!(agent.capability("metrics"), Some(false));
    assert_eq!(
        agent.capabilities,
        vec![Capability { name: "metrics".to_string(), enabled: false }]
    );
}

#[test]
fn each_capability_is_announced_once() {
    let announced = monx::registry::normalize(vec![
        raw("metrics", Some(true)),
        raw("logs", None),
        raw("metrics", None),
        raw("traces", Some(true)),
        raw("logs", Some(true)),
    ]);
    assert_eq!(
        announced,
        vec![
            Capability { name: "metrics".to_string(), enabled: false },
            Capability { name: "logs".to_string(), enabled: true },
            Capability { name: "traces".to_string(), enabled: true },
        ]
    );
}

#[test]
fn registry_has_one_entry_per_name() {
    let mut registry = AgentRegistry::new();
    for round in 0..5 {
        for name in ["a", "b", "c", "a", "b"] {
            registry.register(Some(name.to_string()), None, &format!("t{}", round));
        }
    }
    let names: Vec<String> = registry.get_agents().into_iter().map(|a| a.name).collect();
    assert_eq!(names, vec!["a", "b", "c"]);
}
