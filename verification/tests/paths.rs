use cmdgate::command::Command;
use cmdgate::resolve::{lexical_parent, Resolutions};
use cmdgate::rm::check_rm;
use cmdgate::tee::check_tee;
use cmdgate::permission::Permission;

fn make_rm(args: &[&str]) -> Command {
    Command {
        name: "rm".to_string(),
        args: args.iter().map(|s| s.to_string()).collect(),
        text: format!("rm {}", args.join(" ")),
    }
}

fn make_tee(args: &[&str]) -> Command {
    Command {
        name: "tee".to_string(),
        args: args.iter().map(|s| s.to_string()).collect(),
        text: format!("tee {}", args.join(" ")),
    }
}

/// Canonicalization outcomes for tests: every listed path is already in
/// canonical form and resolves to itself.
fn ident_res(paths: &[&str]) -> Resolutions {
    let mut r = Resolutions::new();
    for p in paths {
        r.push(p.to_string(), Some(p.to_string()));
    }
    r
}

#[test]
fn test_rm_tmp_file() {
    let cmd = make_rm(&["/tmp/test.txt"]);
    let res = ident_res(&["/tmp/test.txt"]);
    let result = check_rm(&cmd, None, &res).unwrap();
    assert_eq!(result.permission, Permission::Allow);
}

#[test]
fn test_rm_tmp_subdir() {
    let cmd = make_rm(&["-rf", "/tmp/mydir/subdir"]);
    let res = ident_res(&["/tmp/mydir/subdir"]);
    let result = check_rm(&cmd, None, &res).unwrap();
    assert_eq!(result.permission, Permission::Allow);
}

#[test]
fn test_rm_tmp_itself_not_allowed() {
    let cmd = make_rm(&["-rf", "/tmp"]);
    let res = ident_res(&["/tmp"]);
    let result = check_rm(&cmd, None, &res);
    assert!(result.is_none()); // passthrough
}

#[test]
fn test_rm_tmp_slash_not_allowed() {
    let cmd = make_rm(&["-rf", "/tmp/"]);
    // The canonicalizer drops the trailing separator.
    let mut res = Resolutions::new();
    res.push("/tmp/".to_string(), Some("/tmp".to_string()));
    let result = check_rm(&cmd, None, &res);
    assert!(result.is_none()); // passthrough
}

#[test]
fn test_rm_home_not_allowed() {
    let cmd = make_rm(&["/home/user/file"]);
    let res = ident_res(&["/home/user/file"]);
    let result = check_rm(&cmd, None, &res);
    assert!(result.is_none()); // passthrough
}

#[test]
fn test_rm_project_file() {
    let cmd = make_rm(&["/syncthing/Sync/Projects/test/target/debug/test"]);
    let res = ident_res(&["/syncthing/Sync/Projects/test/target/debug/test"]);
    let result = check_rm(&cmd, Some("/syncthing/Sync/Projects/test"), &res).unwrap();
    assert_eq!(result.permission, Permission::Allow);
}

#[test]
fn test_rm_outside_project() {
    let cmd = make_rm(&["/var/other/file"]);
    let res = ident_res(&["/var/other/file"]);
    let result = check_rm(&cmd, Some("/syncthing/Sync/Projects/test"), &res);
    assert!(result.is_none()); // passthrough
}

#[test]
fn test_rm_multiple_tmp_files() {
    let cmd = make_rm(&["/tmp/a", "/tmp/b", "/tmp/c"]);
    let res = ident_res(&["/tmp/a", "/tmp/b", "/tmp/c"]);
    let result = check_rm(&cmd, None, &res).unwrap();
    assert_eq!(result.permission, Permission::Allow);
}

#[test]
fn test_rm_mixed_paths_not_allowed() {
    let cmd = make_rm(&["/tmp/a", "/home/user/b"]);
    let res = ident_res(&["/tmp/a", "/home/user/b"]);
    let result = check_rm(&cmd, None, &res);
    assert!(result.is_none()); // passthrough because /home path
}

#[test]
fn test_not_rm_command() {
    let cmd = Command {
        name: "ls".to_string(),
        args: vec!["/tmp".to_string()],
        text: "ls /tmp".to_string(),
    };
    let res = ident_res(&["/tmp"]);
    let result = check_rm(&cmd, None, &res);
    assert!(result.is_none());
}

#[test]
fn test_tee_tmp_file() {
    let cmd = make_tee(&["/tmp/test.log"]);
    let res = ident_res(&["/tmp/test.log"]);
    let result = check_tee(&cmd, None, &res).unwrap();
    assert_eq!(result.permission, Permission::Allow);
}

#[test]
fn test_tee_tmp_claude_file() {
    let cmd = make_tee(&["/tmp/nested/test.log"]);
    let res = ident_res(&["/tmp/nested/test.log"]);
    let result = check_tee(&cmd, None, &res).unwrap();
    assert_eq!(result.permission, Permission::Allow);
}

#[test]
fn test_tee_home_not_allowed() {
    let cmd = make_tee(&["/home/user/file.log"]);
    let res = ident_res(&["/home/user/file.log"]);
    let result = check_tee(&cmd, None, &res);
    assert!(result.is_none()); // passthrough
}

#[test]
fn test_tee_no_args() {
    let cmd = make_tee(&[]);
    let res = Resolutions::new();
    let result = check_tee(&cmd, None, &res).unwrap();
    assert_eq!(result.permission, Permission::Allow);
}

#[test]
fn test_tee_with_append_flag() {
    let cmd = make_tee(&["-a", "/tmp/test.log"]);
    let res = ident_res(&["/tmp/test.log"]);
    let result = check_tee(&cmd, None, &res).unwrap();
    assert_eq!(result.permission, Permission::Allow);
}

#[test]
fn test_not_tee_command() {
    let cmd = Command {
        name: "cat".to_string(),
        args: vec!["/tmp/test.log".to_string()],
        text: "cat /tmp/test.log".to_string(),
    };
    let res = ident_res(&["/tmp/test.log"]);
    let result = check_tee(&cmd, None, &res);
    assert!(result.is_none());
}

#[test]
fn test_rm_parent_fallback_allows() {
    // The file itself cannot be canonicalized (it does not exist yet), but
    // its parent canonicalizes into the temporary directory.
    let cmd = make_rm(&["/tmp/newdir/file.txt"]);
    let mut res = Resolutions::new();
    res.push("/tmp/newdir/file.txt".to_string(), None);
    res.push("/tmp/newdir".to_string(), Some("/tmp/newdir".to_string()));
    let result = check_rm(&cmd, None, &res).unwrap();
    assert_eq!(result.permission, Permission::Allow);
}

#[test]
fn test_rm_unresolvable_defers() {
    // Neither the path nor its parent has a canonical form recorded.
    let cmd = make_rm(&["/tmp/ghost/file.txt"]);
    let res = Resolutions::new();
    assert!(check_rm(&cmd, None, &res).is_none());
}

#[test]
fn test_rm_no_file_args_defers() {
    let cmd = make_rm(&["-rf"]);
    let res = Resolutions::new();
    assert!(check_rm(&cmd, None, &res).is_none());
}

#[test]
fn test_rm_newline_in_path_defers() {
    let cmd = make_rm(&["/tmp/a\nb"]);
    let res = ident_res(&["/tmp/a\nb"]);
    assert!(check_rm(&cmd, None, &res).is_none());
}

#[test]
fn test_tee_parent_fallback() {
    let cmd = make_tee(&["/tmp/logs/new.log"]);
    let mut res = Resolutions::new();
    res.push("/tmp/logs/new.log".to_string(), None);
    res.push("/tmp/logs".to_string(), Some("/tmp/logs".to_string()));
    let result = check_tee(&cmd, None, &res).unwrap();
    assert_eq!(result.permission, Permission::Allow);
}

#[test]
fn test_rm_cwd_trailing_slash() {
    let cmd = make_rm(&["/work/proj/build/out.o"]);
    let res = ident_res(&["/work/proj/build/out.o"]);
    let result = check_rm(&cmd, Some("/work/proj/"), &res).unwrap();
    assert_eq!(result.permission, Permission::Allow);
}

#[test]
fn test_rm_cwd_itself_not_confined() {
    // The working directory itself is not confined to itself.
    let cmd = make_rm(&["-rf", "/work/proj"]);
    let res = ident_res(&["/work/proj"]);
    assert!(check_rm(&cmd, Some("/work/proj"), &res).is_none());
}

#[test]
fn test_lexical_parent_values() {
    assert_eq!(lexical_parent("/tmp/a/b"), Some("/tmp/a".to_string()));
    assert_eq!(lexical_parent("/tmp/a/"), Some("/tmp".to_string()));
    assert_eq!(lexical_parent("/tmp"), Some("/".to_string()));
    assert_eq!(lexical_parent("/"), None);
    assert_eq!(lexical_parent(""), None);
    assert_eq!(lexical_parent("file.txt"), Some("".to_string()));
    assert_eq!(lexical_parent("a//b"), Some("a".to_string()));
}
