use cmdgate::command::Command;
use cmdgate::wrapper::unwrap_command;
use cmdgate::wrappers::shell::unwrap;

fn make_cmd(name: &str, args: &[&str]) -> Command {
    Command {
        name: name.to_string(),
        args: args.iter().map(|s| s.to_string()).collect(),
        text: format!("{} {}", name, args.join(" ")),
    }
}

#[test]
fn test_sudo_simple() {
    let cmd = make_cmd("sudo", &["ls", "-la"]);
    let result = unwrap_command(&cmd).unwrap();
    assert_eq!(result.inner_command, Some("ls -la".to_string()));
}

#[test]
fn test_sudo_with_options() {
    let cmd = make_cmd("sudo", &["-A", "-u", "root", "ls"]);
    let result = unwrap_command(&cmd).unwrap();
    assert_eq!(result.inner_command, Some("ls".to_string()));
}

#[test]
fn test_ssh_with_command() {
    let cmd = make_cmd("ssh", &["user@host", "ls", "-la"]);
    let result = unwrap_command(&cmd).unwrap();
    assert_eq!(result.host, Some("host".to_string()));
    assert_eq!(result.inner_command, Some("ls -la".to_string()));
}

#[test]
fn test_ssh_with_options() {
    let cmd = make_cmd("ssh", &["-p", "22", "-i", "key.pem", "host", "whoami"]);
    let result = unwrap_command(&cmd).unwrap();
    assert_eq!(result.host, Some("host".to_string()));
    assert_eq!(result.inner_command, Some("whoami".to_string()));
}

#[test]
fn test_scp() {
    let cmd = make_cmd("scp", &["file.txt", "user@host:/path/"]);
    let result = unwrap_command(&cmd).unwrap();
    assert_eq!(result.host, Some("host".to_string()));
}

#[test]
fn test_env() {
    let cmd = make_cmd("env", &["VAR=value", "ls"]);
    let result = unwrap_command(&cmd).unwrap();
    assert_eq!(result.inner_command, Some("ls".to_string()));
}

#[test]
fn test_env_with_flags() {
    let cmd = make_cmd("env", &["VAR=1", "rm", "-rf", "/tmp"]);
    let result = unwrap_command(&cmd).unwrap();
    assert_eq!(result.inner_command, Some("rm -rf /tmp".to_string()));
}

#[test]
fn test_nice_with_flags() {
    let cmd = make_cmd("nice", &["-n", "10", "ls", "-la"]);
    let result = unwrap_command(&cmd).unwrap();
    assert_eq!(result.inner_command, Some("ls -la".to_string()));
}

#[test]
fn test_kubectl_exec_simple() {
    let cmd = make_cmd("kubectl", &["exec", "mypod", "--", "ls", "-la"]);
    let result = unwrap_command(&cmd).unwrap();
    assert_eq!(result.inner_command, Some("ls -la".to_string()));
    assert_eq!(result.wrapper, "kubectl exec");
}

#[test]
fn test_kubectl_exec_with_options() {
    let cmd = make_cmd(
        "kubectl",
        &["exec", "-it", "mypod", "-c", "mycontainer", "--", "/bin/bash"],
    );
    let result = unwrap_command(&cmd).unwrap();
    assert_eq!(result.inner_command, Some("/bin/bash".to_string()));
}

#[test]
fn test_kubectl_exec_with_namespace() {
    let cmd = make_cmd("kubectl", &["exec", "-n", "prod", "mypod", "--", "rm", "-rf", "/tmp"]);
    let result = unwrap_command(&cmd).unwrap();
    assert_eq!(result.inner_command, Some("rm -rf /tmp".to_string()));
}

#[test]
fn test_kubectl_get_not_wrapper() {
    let cmd = make_cmd("kubectl", &["get", "pods"]);
    let result = unwrap_command(&cmd);
    assert!(result.is_none());
}

#[test]
fn test_kubectl_exec_no_separator() {
    // kubectl exec without -- has no inner command to analyze
    let cmd = make_cmd("kubectl", &["exec", "mypod"]);
    let result = unwrap_command(&cmd).unwrap();
    assert_eq!(result.inner_command, None);
}

#[test]
fn test_sh_c_simple() {
    let cmd = make_cmd("sh", &["-c", "ls -la"]);
    let result = unwrap(&cmd).unwrap();
    assert_eq!(result.inner_command, Some("ls -la".to_string()));
}

#[test]
fn test_bash_c_simple() {
    let cmd = make_cmd("bash", &["-c", "echo hello"]);
    let result = unwrap(&cmd).unwrap();
    assert_eq!(result.inner_command, Some("echo hello".to_string()));
}

#[test]
fn test_zsh_c_simple() {
    let cmd = make_cmd("zsh", &["-c", "pwd"]);
    let result = unwrap(&cmd).unwrap();
    assert_eq!(result.inner_command, Some("pwd".to_string()));
}

#[test]
fn test_sh_without_c_not_wrapper() {
    let cmd = make_cmd("sh", &["script.sh"]);
    let result = unwrap(&cmd);
    assert!(result.is_none());
}

#[test]
fn test_sh_c_no_command() {
    let cmd = make_cmd("sh", &["-c"]);
    let result = unwrap(&cmd);
    assert!(result.is_none());
}

#[test]
fn test_sh_c_single_quotes_stripped() {
    let cmd = make_cmd("sh", &["-c", "'rm -rf /'"]);
    let result = unwrap(&cmd).unwrap();
    assert_eq!(result.inner_command, Some("rm -rf /".to_string()));
}

#[test]
fn test_sh_c_double_quotes_stripped() {
    let cmd = make_cmd("bash", &["-c", "\"echo hi\""]);
    let result = unwrap(&cmd).unwrap();
    assert_eq!(result.inner_command, Some("echo hi".to_string()));
}

#[test]
fn test_sh_c_lone_quote_kept() {
    // A single quote character is not a surrounding pair.
    let cmd = make_cmd("sh", &["-c", "'"]);
    let result = unwrap(&cmd).unwrap();
    assert_eq!(result.inner_command, Some("'".to_string()));
}

#[test]
fn test_sudo_combined_cluster_consumes_value() {
    // -Au ends in the value-taking u, so "root" is consumed and ls starts
    // the inner command.
    let cmd = make_cmd("sudo", &["-Au", "root", "ls"]);
    let result = unwrap_command(&cmd).unwrap();
    assert_eq!(result.inner_command, Some("ls".to_string()));
}

#[test]
fn test_sudo_all_options_no_command() {
    let cmd = make_cmd("sudo", &["-u", "root"]);
    assert!(unwrap_command(&cmd).is_none());
}

#[test]
fn test_ssh_inline_option_value() {
    // -p22 carries its value inline: the next token is already the host.
    let cmd = make_cmd("ssh", &["-p22", "host", "uptime"]);
    let result = unwrap_command(&cmd).unwrap();
    assert_eq!(result.host, Some("host".to_string()));
    assert_eq!(result.inner_command, Some("uptime".to_string()));
}

#[test]
fn test_ssh_host_only_no_inner() {
    let cmd = make_cmd("ssh", &["user@host"]);
    let result = unwrap_command(&cmd).unwrap();
    assert_eq!(result.host, Some("host".to_string()));
    assert_eq!(result.inner_command, None);
}

#[test]
fn test_ssh_only_options_no_match() {
    // Every token is an option or an option's value: no non-option token,
    // so the recognized wrapper does not match.
    let cmd = make_cmd("ssh", &["-v", "-p", "22"]);
    assert!(unwrap_command(&cmd).is_none());
}

#[test]
fn test_scp_only_options_no_match() {
    let cmd = make_cmd("scp", &["-r", "-q"]);
    assert!(unwrap_command(&cmd).is_none());
}

#[test]
fn test_rsync_only_options_no_match() {
    let cmd = make_cmd("rsync", &["-av"]);
    assert!(unwrap_command(&cmd).is_none());
}

#[test]
fn test_scp_local_colon_path_not_host() {
    // A colon inside a path that starts with '/' is not a remote target.
    let cmd = make_cmd("scp", &["/path/to:file", "other.txt"]);
    let result = unwrap_command(&cmd).unwrap();
    assert_eq!(result.host, None);
}

#[test]
fn test_rsync_host() {
    let cmd = make_cmd("rsync", &["-av", "src/", "user@backup:/srv/data"]);
    let result = unwrap_command(&cmd).unwrap();
    assert_eq!(result.host, Some("backup".to_string()));
    assert_eq!(result.inner_command, None);
}

#[test]
fn test_time_wrapper_with_output_option() {
    let cmd = make_cmd("time", &["-o", "log.txt", "make", "all"]);
    let result = unwrap_command(&cmd).unwrap();
    assert_eq!(result.inner_command, Some("make all".to_string()));
    assert_eq!(result.wrapper, "time");
}

#[test]
fn test_nohup_wrapper() {
    let cmd = make_cmd("nohup", &["./server", "--port", "8080"]);
    let result = unwrap_command(&cmd).unwrap();
    assert_eq!(result.inner_command, Some("./server --port 8080".to_string()));
}

#[test]
fn test_not_a_wrapper() {
    let cmd = make_cmd("cat", &["file.txt"]);
    assert!(unwrap_command(&cmd).is_none());
}
