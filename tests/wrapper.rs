use openedge::loader::{new_wrapper, synthetic_env, to_js_keyvalues, wrapper_for, wrapper_module_specifier, ModuleSpecifier};
use openedge::probe::{ConnectOutcome, Probe, ProbeAction, PROBE_DEADLINE_MS};

fn pairs(p: &[(&str, &str)]) -> Vec<(String, String)> {
    p.iter().map(|(k, v)| (k.to_string(), v.to_string())).collect()
}

#[test]
fn keyvalues_one_per_line() {
    assert_eq!(to_js_keyvalues(&pairs(&[])), "");
    assert_eq!(to_js_keyvalues(&pairs(&[("REGION", "lhr")])), "\"REGION\": \"lhr\"");
    assert_eq!(
        to_js_keyvalues(&pairs(&[("REGION", "lhr"), ("PORT", "8081")])),
        "\"REGION\": \"lhr\",\n\"PORT\": \"8081\""
    );
}

#[test]
fn keyvalues_are_json_escaped() {
    assert_eq!(
        to_js_keyvalues(&pairs(&[("K", "a\"b\\c\nd\u{1}")])),
        "\"K\": \"a\\\"b\\\\c\\nd\\u0001\""
    );
    assert_eq!(to_js_keyvalues(&pairs(&[("T", "\t\r\u{1f}é")])), "\"T\": \"\\t\\r\\u001fé\"");
}

#[test]
fn synthetic_env_region_and_port() {
    let env = synthetic_env(Some("lhr".to_string()), 8081);
    assert_eq!(env, pairs(&[("REGION", "lhr"), ("PORT", "8081")]));
    assert_eq!(env[1].1.parse::<u16>().unwrap(), 8081);
    let env = synthetic_env(None, 7);
    assert_eq!(env, pairs(&[("REGION", "UNKNOWN"), ("PORT", "7")]));
    let env = synthetic_env(None, 65535);
    assert_eq!(env[1].1.parse::<u16>().unwrap(), 65535);
}

#[test]
fn wrapper_imports_user_module_and_serves_port() {
    let user = ModuleSpecifier::parse("file:///hello.js".to_string()).unwrap();
    let env = synthetic_env(Some("lhr".to_string()), 8081);
    let w = new_wrapper(&user, &env, 8081);
    assert_eq!(w.spec.as_str(), "file:///wrapper.js");
    assert_eq!(wrapper_module_specifier().as_str(), "file:///wrapper.js");
    assert!(w.code.starts_with("import worker from \"file:///hello.js\";\n"));
    assert!(w.code.contains("\"REGION\": \"lhr\",\n\"PORT\": \"8081\""));
    assert!(w.code.contains("hostname: \"0.0.0.0\",\n    port: 8081,\n});\n"));
    assert!(w.code.contains("worker.fetch(req, env)"));
    assert!(w.code.contains("set: readOnly"));
    assert!(w.code.contains("delete: readOnly"));
    assert!(w.code.ends_with(",\n});\n"));
}

#[test]
fn probe_retries_refusals_with_capped_backoff() {
    let mut p = Probe::new();
    assert_eq!(p.step(ConnectOutcome::Refused, 0), ProbeAction::RetryAfter(1));
    assert_eq!(p.step(ConnectOutcome::Refused, 1), ProbeAction::RetryAfter(2));
    assert_eq!(p.step(ConnectOutcome::Refused, 3), ProbeAction::RetryAfter(4));
    for _ in 0..10 {
        p.step(ConnectOutcome::Refused, 10);
    }
    assert_eq!(p.backoff_ms, 50);
    assert_eq!(p.step(ConnectOutcome::Refused, 4990), ProbeAction::RetryAfter(10));
    assert_eq!(p.step(ConnectOutcome::Refused, PROBE_DEADLINE_MS), ProbeAction::GiveUp);
    assert_eq!(p.step(ConnectOutcome::Connected, 4000), ProbeAction::Ready);
    assert_eq!(p.step(ConnectOutcome::Failed, 0), ProbeAction::GiveUp);
}

#[test]
fn wrapper_for_ties_port_in_env_to_served_port() {
    let user = ModuleSpecifier::parse("file:///hello.js".to_string()).unwrap();
    let w = wrapper_for(&user, None, 9999);
    let expected = new_wrapper(&user, &synthetic_env(None, 9999), 9999);
    assert_eq!(w.code, expected.code);
    assert!(w.code.contains("\"REGION\": \"UNKNOWN\",\n\"PORT\": \"9999\""));
    assert!(w.code.contains("port: 9999,"));
    assert_eq!(w.spec.as_str(), "file:///wrapper.js");
}

#[test]
fn locator_is_escaped_in_import() {
    let user = ModuleSpecifier::parse("file:///a\"b.js".to_string()).unwrap();
    let w = wrapper_for(&user, Some("lhr".to_string()), 8081);
    assert!(w.code.starts_with("import worker from \"file:///a\\\"b.js\";\n"));
}
