use lai::config::{get_str_list, parse_settings, setting_names, AgentConfig, Number, Setting};
use lai::security::SecurityMode;

fn num(n: u64) -> Setting {
    Setting::Num(Number { as_u32: n as u32, as_usize: n as usize, as_u64: n })
}

#[test]
fn agent_defaults() {
    let c = AgentConfig::default();
    assert_eq!(c.max_turns, 20);
    assert_eq!(c.max_context_tokens, 8192);
}

#[test]
fn settings_with_defaults() {
    let parsed = parse_settings(&Vec::new());
    assert_eq!(parsed.backend_type, "llama");
    assert_eq!(parsed.backend_url, "http://localhost:8080/v1");
    assert_eq!(parsed.backend_model, "local");
    assert_eq!(parsed.backend_max_tokens, 4096);
    assert_eq!(parsed.agent.max_turns, 20);
    assert_eq!(parsed.agent.max_context_tokens, 8192);
    assert_eq!(parsed.security.mode, SecurityMode::Confirm);
    assert!(parsed.security.blocked_commands.is_empty());
    assert_eq!(parsed.security.max_ops_per_turn, 50);
    assert_eq!(parsed.security.max_output_bytes, 1048576);
    assert_eq!(parsed.security.exec_timeout_secs, 60);
    assert_eq!(parsed.security.audit_log, None);
}

#[test]
fn settings_given() {
    let settings = vec![
        ("backend-type".to_string(), Setting::Str("openai".to_string())),
        ("backend-model".to_string(), num(3)),
        ("agent-max-turns".to_string(), num(5)),
        ("security-mode".to_string(), Setting::Str("strict".to_string())),
        ("security-allow-network".to_string(), Setting::Bool(false)),
        (
            "security-blocked-commands".to_string(),
            Setting::List(vec![Setting::Str("dd".to_string()), num(1), Setting::Str("shred".to_string())]),
        ),
        ("security-audit-log".to_string(), Setting::Str(String::new())),
        ("agent-max-turns".to_string(), num(9)),
    ];
    let parsed = parse_settings(&settings);
    assert_eq!(parsed.backend_type, "openai");
    assert_eq!(parsed.backend_model, "local");
    assert_eq!(parsed.agent.max_turns, 5);
    assert_eq!(parsed.security.mode, SecurityMode::Strict);
    assert!(!parsed.security.allow_network);
    assert_eq!(parsed.security.blocked_commands, vec!["dd", "shred"]);
    assert_eq!(parsed.security.audit_log, None);
}

#[test]
fn string_lists() {
    assert!(get_str_list(None).is_empty());
    assert!(get_str_list(Some(&Setting::Bool(true))).is_empty());
}

#[test]
fn names() {
    let names = setting_names();
    assert_eq!(names.len(), 23);
    assert_eq!(names[0], "backend-type");
    assert_eq!(names[22], "security-audit-log");
}

#[test]
fn documented_config_example() {
    let settings = vec![
        ("backend-type".to_string(), Setting::Str("openai".to_string())),
        ("backend-url".to_string(), Setting::Str("https://openrouter.ai/api/v1".to_string())),
        ("backend-model".to_string(), Setting::Str("gpt-4o".to_string())),
        ("agent-self-improve".to_string(), Setting::Bool(true)),
    ];
    let parsed = parse_settings(&settings);
    assert_eq!(parsed.backend_type, "openai");
    assert_eq!(parsed.backend_url, "https://openrouter.ai/api/v1");
    assert_eq!(parsed.backend_model, "gpt-4o");
    assert_eq!(parsed.agent.max_turns, 20);
    assert_eq!(parsed.security.mode, SecurityMode::Confirm);
}
