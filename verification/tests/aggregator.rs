use cmdgate::analyze::{analyze_command, format_reason, resolution_requests, shorten_command};
use cmdgate::permission::{Permission, PermissionResult};
use cmdgate::policy::Config;
use cmdgate::resolve::Resolutions;

/// Canonicalization outcomes as the host program would gather them, with a
/// canonicalizer that maps every requested path to itself (every test path
/// here is already in canonical form).
fn res_for(command: &str) -> Resolutions {
    let mut r = Resolutions::new();
    for p in resolution_requests(command) {
        let copy = p.clone();
        r.push(p, Some(copy));
    }
    r
}

fn analyze(command: &str, config: &Config) -> PermissionResult {
    let res = res_for(command);
    analyze_command(command, config, &res)
}

#[test]
fn test_simple_allow() {
    let config = Config::default();
    let result = analyze("ls -la", &config);
    assert_eq!(result.permission, Permission::Allow);
}

#[test]
fn test_pipeline() {
    let config = Config::default();
    let result = analyze("ls | grep foo", &config);
    assert_eq!(result.permission, Permission::Allow);
}

#[test]
fn test_dangerous_command() {
    let config = Config::default();
    let result = analyze("rm -rf /", &config);
    assert_eq!(result.permission, Permission::Deny);
}

#[test]
fn test_sudo_wrapper() {
    let config = Config::default();
    let result = analyze("sudo ls", &config);
    // sudo unwraps to ls, which is allowed
    assert_eq!(result.permission, Permission::Allow);
}

#[test]
fn test_sudo_dangerous() {
    let config = Config::default();
    let result = analyze("sudo rm -rf /", &config);
    // sudo unwraps to rm -rf /, which is denied
    assert_eq!(result.permission, Permission::Deny);
}

#[test]
fn test_chain_with_dangerous() {
    let config = Config::default();
    let result = analyze("ls && rm -rf /tmp", &config);
    // Most restrictive should be deny
    assert_eq!(result.permission, Permission::Deny);
}

#[test]
fn test_env_dangerous() {
    let config = Config::default();
    let result = analyze("env VAR=1 rm -rf /", &config);
    // env unwraps to rm -rf /, which is denied
    assert_eq!(result.permission, Permission::Deny);
}

#[test]
fn test_var_assignment_safe() {
    let config = Config::default();
    let result = analyze("VAR=1 ls -la", &config);
    // ls is allowed even with env var
    assert_eq!(result.permission, Permission::Allow);
}

#[test]
fn test_git_suggestion() {
    let config = Config::default();
    let result = analyze("git checkout main", &config);
    // Should have a suggestion
    assert!(result.suggestion.is_some());
}

#[test]
fn test_kubectl_exec_safe() {
    let config = Config::default();
    let result = analyze("kubectl exec mypod -- ls -la", &config);
    // kubectl exec unwraps to ls -la, which is allowed
    assert_eq!(result.permission, Permission::Allow);
}

#[test]
fn test_kubectl_exec_dangerous() {
    let config = Config::default();
    let result = analyze("kubectl exec -n prod mypod -- rm -rf /", &config);
    // kubectl exec unwraps to rm -rf /, which is denied
    assert_eq!(result.permission, Permission::Deny);
}

#[test]
fn test_kubectl_get_allowed() {
    let config = Config::default();
    let result = analyze("kubectl get pods", &config);
    // kubectl get is allowed (not a wrapper, falls through to default)
    assert_eq!(result.permission, Permission::Allow);
}

#[test]
fn test_empty_line_allows() {
    let config = Config::default();
    let result = analyze("", &config);
    assert_eq!(result.permission, Permission::Allow);
    assert_eq!(result.reason, "No commands found");
}

#[test]
fn test_blank_line_allows() {
    let config = Config::default();
    let result = analyze("   \t  ", &config);
    assert_eq!(result.permission, Permission::Allow);
    assert_eq!(result.reason, "No commands found");
}

#[test]
fn test_unterminated_quote_asks() {
    let config = Config::default();
    let result = analyze("echo 'oops", &config);
    assert_eq!(result.permission, Permission::Ask);
    assert_eq!(result.reason, "unterminated quote in command");
}

#[test]
fn test_sh_c_dangerous_recursed() {
    let config = Config::default();
    let result = analyze("sh -c 'rm -rf /'", &config);
    assert_eq!(result.permission, Permission::Deny);
}

#[test]
fn test_rm_in_tmp_allowed_by_classifier() {
    let config = Config::default();
    let result = analyze("rm -rf /tmp/mydir/subdir", &config);
    assert_eq!(result.permission, Permission::Allow);
}

#[test]
fn test_sudo_rm_in_tmp_allowed() {
    let config = Config::default();
    let result = analyze("sudo rm /tmp/cache/file", &config);
    assert_eq!(result.permission, Permission::Allow);
}

#[test]
fn test_unwrap_equals_direct_analysis() {
    // One recursive unwrap step and the direct analysis agree.
    let config = Config::default();
    let direct = analyze("rm -rf /", &config);
    let wrapped = analyze("sudo rm -rf /", &config);
    assert_eq!(wrapped.permission, direct.permission);
    assert_eq!(wrapped.reason, direct.reason);
}

#[test]
fn test_max_rank_over_pipeline() {
    // Allow, Ask and Deny in one line: the Deny wins.
    let config = Config::default();
    let result = analyze("ls; git checkout main; rm -rf /", &config);
    assert_eq!(result.permission, Permission::Deny);
    // Allow and Ask: the Ask wins.
    let result = analyze("ls; git checkout main", &config);
    assert_eq!(result.permission, Permission::Ask);
}

#[test]
fn test_ssh_remote_asks() {
    let config = Config::default();
    let result = analyze("ssh user@host ls -la", &config);
    assert_eq!(result.permission, Permission::Ask);
    assert_eq!(result.reason, "command runs on a remote host");
}

#[test]
fn test_ssh_without_host_falls_to_rules() {
    // ssh whose every token is an option does not match as a wrapper and
    // goes through the plain rule lookup, whose default allows.
    let config = Config::default();
    let result = analyze("ssh -v", &config);
    assert_eq!(result.permission, Permission::Allow);
}

#[test]
fn test_scp_remote_asks() {
    let config = Config::default();
    let result = analyze("scp file.txt user@host:/path/", &config);
    assert_eq!(result.permission, Permission::Ask);
}

#[test]
fn test_nesting_limit_asks() {
    let config = Config::default();
    let mut line = String::new();
    for _ in 0..70 {
        line.push_str("sudo ");
    }
    line.push_str("ls");
    let result = analyze(&line, &config);
    assert_eq!(result.permission, Permission::Ask);
    assert_eq!(result.reason, "command nesting limit reached");
}

#[test]
fn test_format_reason_empty_reason_is_command() {
    let result = PermissionResult {
        permission: Permission::Allow,
        reason: String::new(),
        suggestion: None,
    };
    assert_eq!(format_reason("ls -la", &result), "ls -la");
}

#[test]
fn test_format_reason_with_reason_and_suggestion() {
    let result = PermissionResult {
        permission: Permission::Ask,
        reason: "needs review".to_string(),
        suggestion: Some("try something else".to_string()),
    };
    assert_eq!(
        format_reason("mycmd --flag", &result),
        "mycmd --flag: needs review\ntry something else"
    );
}

#[test]
fn test_shorten_command_caps_at_sixty() {
    let long: String = "a".repeat(100);
    let short = shorten_command(&long);
    assert_eq!(short.len(), 60);
    assert_eq!(shorten_command("short"), "short");
}

#[test]
fn test_resolution_requests_include_parents() {
    let reqs = resolution_requests("rm /tmp/a/b");
    assert!(reqs.contains(&"/tmp/a/b".to_string()));
    assert!(reqs.contains(&"/tmp/a".to_string()));
}

#[test]
fn test_resolution_requests_recurse_into_wrappers() {
    let reqs = resolution_requests("sudo rm /tmp/x/y");
    assert!(reqs.contains(&"/tmp/x/y".to_string()));
    assert!(reqs.contains(&"/tmp/x".to_string()));
}

#[test]
fn test_rm_without_resolutions_denied() {
    // With no canonicalization outcomes at all, safety cannot be proven
    // and the rule store denies the delete.
    let config = Config::default();
    let result = analyze_command("rm -rf /tmp/anything", &config, &Resolutions::new());
    assert_eq!(result.permission, Permission::Deny);
}
