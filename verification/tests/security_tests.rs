use lai::security::{
    audit_entry, confirm_prompt, confirm_verdict, joined_reasons, default_allowed_domains,
    default_blocked_commands, default_blocked_domains, default_blocked_functions,
    default_blocked_paths, default_exec_timeout_secs, default_max_ops_per_turn,
    default_max_output_bytes, default_sandbox_paths, default_true, extract_path, extract_url,
    is_write_op, re_contains, SecurityConfig, SecurityMode, SecurityPolicy,
};

fn policy_with(f: impl FnOnce(&mut SecurityConfig)) -> SecurityPolicy {
    let mut config = SecurityConfig::default();
    f(&mut config);
    SecurityPolicy::new(config)
}

#[test]
fn default_config_values() {
    let c = SecurityConfig::default();
    assert_eq!(c.mode, SecurityMode::Confirm);
    assert_eq!(c.blocked_commands, vec!["rm -rf /", "mkfs", ":(){ :|:& };:"]);
    assert_eq!(c.blocked_paths, vec!["/etc", "/boot", "/sys", "/proc"]);
    assert_eq!(c.blocked_functions, vec!["exit", "setenv"]);
    assert!(c.require_confirm_rm && c.require_confirm_sudo);
    assert!(c.require_confirm_write_system && c.require_confirm_eval);
    assert!(c.allow_network);
    assert!(c.blocked_domains.is_empty() && c.allowed_domains.is_empty());
    assert!(c.sandbox_paths.is_empty());
    assert_eq!(c.max_ops_per_turn, 50);
    assert_eq!(c.max_output_bytes, 1_048_576);
    assert_eq!(c.exec_timeout_secs, 60);
    assert_eq!(c.audit_log, None);
}

#[test]
fn default_helpers() {
    assert_eq!(default_blocked_commands().len(), 3);
    assert_eq!(default_blocked_paths()[3], "/proc");
    assert_eq!(default_blocked_functions(), vec!["exit", "setenv"]);
    assert!(default_blocked_domains().is_empty());
    assert!(default_allowed_domains().is_empty());
    assert!(default_sandbox_paths().is_empty());
    assert_eq!(default_max_ops_per_turn(), 50);
    assert_eq!(default_max_output_bytes(), 1024 * 1024);
    assert_eq!(default_exec_timeout_secs(), 60);
    assert!(default_true());
}

#[test]
fn default_mode_is_confirm() {
    assert_eq!(SecurityMode::default(), SecurityMode::Confirm);
}

#[test]
fn mode_from_name() {
    assert_eq!(SecurityMode::from_name("Off"), SecurityMode::Off);
    assert_eq!(SecurityMode::from_name("STRICT"), SecurityMode::Strict);
    assert_eq!(SecurityMode::from_name("confirm"), SecurityMode::Confirm);
    assert_eq!(SecurityMode::from_name("bogus"), SecurityMode::Confirm);
}

#[test]
fn off_mode_accepts_everything() {
    let mut policy = policy_with(|c| c.mode = SecurityMode::Off);
    assert_eq!(policy.check_code("(exec \"rm -rf /\")"), Ok(()));
    assert!(policy.dangerous_reasons("(exec \"sudo rm -rf /\")").is_empty());
}

#[test]
fn blocked_command_is_rejected() {
    let mut policy = SecurityPolicy::new(SecurityConfig::default());
    assert_eq!(
        policy.check_code("(exec \"rm -rf /\")"),
        Err("security: blocked command pattern '(?i)rm \\-rf /'".to_string())
    );
}

#[test]
fn blocked_command_pattern_is_escaped() {
    let mut policy = SecurityPolicy::new(SecurityConfig::default());
    assert_eq!(
        policy.check_code("(exec \":(){ :|:& };:\")"),
        Err("security: blocked command pattern '(?i):\\(\\)\\{ :\\|:\\& \\};:'".to_string())
    );
}

#[test]
fn blocked_command_ignores_case() {
    let mut policy = SecurityPolicy::new(SecurityConfig::default());
    assert_eq!(
        policy.check_code("(exec \"MKFS /dev/sda\")"),
        Err("security: blocked command pattern '(?i)mkfs'".to_string())
    );
}

#[test]
fn harmless_code_passes() {
    let mut policy = SecurityPolicy::new(SecurityConfig::default());
    assert_eq!(policy.check_code("(+ 1 2)"), Ok(()));
}

#[test]
fn rate_limit_per_turn() {
    let mut policy = policy_with(|c| c.max_ops_per_turn = 2);
    assert_eq!(policy.check_code("(+ 1 2)"), Ok(()));
    assert_eq!(policy.check_code("(+ 1 2)"), Ok(()));
    assert_eq!(
        policy.check_code("(+ 1 2)"),
        Err("security: rate limit exceeded (max 2 ops per turn)".to_string())
    );
    policy.start_turn();
    assert_eq!(policy.check_code("(+ 1 2)"), Ok(()));
}

#[test]
fn strict_blocks_functions() {
    let mut policy = policy_with(|c| c.mode = SecurityMode::Strict);
    assert_eq!(
        policy.check_code("( exit 0)"),
        Err("security: blocked function '\\(\\s*exit\\b'".to_string())
    );
    let mut confirm = SecurityPolicy::new(SecurityConfig::default());
    assert_eq!(confirm.check_code("( exit 0)"), Ok(()));
}

#[test]
fn strict_blocks_sudo_and_eval() {
    let mut policy = policy_with(|c| c.mode = SecurityMode::Strict);
    assert_eq!(
        policy.check_code("(exec \"SUDO ls\")"),
        Err("security: sudo blocked in strict mode".to_string())
    );
    assert_eq!(
        policy.check_code("(eval (+ 1 2))"),
        Err("security: eval blocked in strict mode".to_string())
    );
}

#[test]
fn network_can_be_disabled() {
    let mut policy = policy_with(|c| c.allow_network = false);
    assert_eq!(
        policy.check_code("(HTTP-get \"x\")"),
        Err("security: network access disabled".to_string())
    );
}

#[test]
fn blocked_domain_is_rejected() {
    let mut policy = policy_with(|c| c.blocked_domains = vec!["evil.com".to_string()]);
    assert_eq!(
        policy.check_code("(http-get \"https://evil.com/x\")"),
        Err("security: blocked domain 'evil\\.com'".to_string())
    );
    assert_eq!(policy.check_code("(http-get \"https://evilxcom/x\")"), Ok(()));
}

#[test]
fn allowlist_limits_domains() {
    let mut policy = policy_with(|c| c.allowed_domains = vec!["example.com".to_string()]);
    assert_eq!(
        policy.check_code("(http-get \"https://other.org/a\")"),
        Err("security: domain not in allowlist: https://other.org/a".to_string())
    );
    assert_eq!(policy.check_code("(http-get \"https://api.example.com/v1\")"), Ok(()));
    assert_eq!(policy.check_code("(+ 1 2)"), Ok(()));
}

#[test]
fn reasons_for_deletion() {
    let policy = SecurityPolicy::new(SecurityConfig::default());
    assert_eq!(
        policy.dangerous_reasons("(exec \"rm -f /etc/passwd\")"),
        vec!["file deletion (rm)".to_string()]
    );
}

#[test]
fn reasons_for_system_path_are_anchored() {
    let policy = SecurityPolicy::new(SecurityConfig::default());
    assert_eq!(
        policy.dangerous_reasons("/etc/hosts"),
        vec!["writing to system path".to_string()]
    );
}

#[test]
fn reasons_collect_in_order() {
    let policy = SecurityPolicy::new(SecurityConfig::default());
    assert_eq!(
        policy.dangerous_reasons("(exec \"sudo rm x\") (eval y) (exit)"),
        vec![
            "file deletion (rm)".to_string(),
            "sudo".to_string(),
            "eval".to_string(),
            "blocked function".to_string()
        ]
    );
    let strict = policy_with(|c| c.mode = SecurityMode::Strict);
    assert_eq!(strict.dangerous_reasons("(exit)"), Vec::<String>::new());
}

#[test]
fn reasons_for_sandbox() {
    let policy = policy_with(|c| c.sandbox_paths = vec!["/tmp".to_string()]);
    assert_eq!(
        policy.dangerous_reasons("(write \"/home/x\" \"data\")"),
        vec!["path outside sandbox: /home/x".to_string()]
    );
    assert!(policy.dangerous_reasons("(write \"/tmp/x\" \"data\")").is_empty());
    assert!(policy.dangerous_reasons("(read \"/home/x\")").is_empty());
}

#[test]
fn prompt_text() {
    let reasons = vec!["sudo".to_string(), "eval".to_string()];
    assert_eq!(
        confirm_prompt(&reasons, "  (eval x)  "),
        "\n\u{26a0} security: sudo, eval detected in: (eval x)\n  allow? [y/N] "
    );
}

#[test]
fn answers() {
    let sudo = vec!["sudo".to_string()];
    assert_eq!(confirm_verdict(&sudo, "Y\n"), Ok(()));
    assert_eq!(confirm_verdict(&sudo, " yes "), Ok(()));
    assert_eq!(confirm_verdict(&sudo, "YES"), Ok(()));
    assert_eq!(
        confirm_verdict(&sudo, "no"),
        Err("security: blocked by user (sudo)".to_string())
    );
    let both = vec!["sudo".to_string(), "eval".to_string()];
    assert_eq!(
        confirm_verdict(&both, ""),
        Err("security: blocked by user (sudo, eval)".to_string())
    );
    assert_eq!(confirm_verdict(&Vec::new(), "no"), Ok(()));
    assert_eq!(joined_reasons(&both), "sudo, eval");
    assert_eq!(joined_reasons(&Vec::new()), "");
}

#[test]
fn audit_line_text() {
    assert_eq!(
        audit_entry(1700000000, true, "sudo", " (x) "),
        "[1700000000] ALLOWED | sudo | (x)\n"
    );
    assert_eq!(audit_entry(0, false, "eval", "(eval y)"), "[0] BLOCKED | eval | (eval y)\n");
}

#[test]
fn output_bounds() {
    let policy = policy_with(|c| c.max_output_bytes = 10);
    assert_eq!(policy.check_output("hello"), "hello");
    assert_eq!(policy.check_output("abcdefghij"), "abcdefghij");
    assert_eq!(
        policy.check_output("abcdefghijklmno"),
        "abcdefghij\n\n[output truncated: 15 bytes limited to 10 bytes]"
    );
    assert_eq!(
        policy.check_output("\u{e9}\u{e9}\u{e9}\u{e9}\u{e9}\u{e9}"),
        "\u{e9}\u{e9}\u{e9}\u{e9}\u{e9}\n\n[output truncated: 12 bytes limited to 10 bytes]"
    );
    assert_eq!(policy.check_exec_timeout(), 60);
}

#[test]
fn url_extraction() {
    assert_eq!(
        extract_url("(http-get \"https://a.b/c\" \"http://d\")"),
        Some("https://a.b/c".to_string())
    );
    assert_eq!(extract_url("\"ftp://x\" \"http://y\""), Some("http://y".to_string()));
    assert_eq!(extract_url("\"https://\""), None);
    assert_eq!(extract_url("no quotes http://x"), None);
}

#[test]
fn path_extraction() {
    assert_eq!(extract_path("(write \"/tmp/a\" \"x\")"), Some("/tmp/a".to_string()));
    assert_eq!(extract_path("(write \"\" \"/tmp/a\")"), Some(" ".to_string()));
    assert_eq!(extract_path("(write x)"), None);
}

#[test]
fn write_ops_and_mentions() {
    assert!(is_write_op("(WRITE \"a\" \"b\")"));
    assert!(is_write_op("(touch \"a\")"));
    assert!(!is_write_op("(read \"a\")"));
    assert!(re_contains("Please SUDO now", "sudo"));
    assert!(!re_contains("pseudo-code", "sudo ls"));
}
