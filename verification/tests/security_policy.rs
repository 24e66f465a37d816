use sigops_agent::security::{
    next_poll_action, PollAction, PollStatus, SecurityError, SecurityPolicy,
    DEFAULT_EXEC_TIMEOUT_SECS,
};
use std::time::Duration;

// --- whitelist ----------------------------------------------------

#[test]
fn test_whitelist_allows_default_commands() {
    let p = SecurityPolicy::default();
    assert!(p.validate("echo", &["hello"]).is_ok());
    assert!(p.validate("ls", &["/tmp"]).is_ok());
    assert!(p.validate("date", &[]).is_ok());
}

#[test]
fn test_whitelist_rejects_disallowed_command() {
    let p = SecurityPolicy::default();
    let err = p.validate("rm", &["-rf", "/tmp/x"]).unwrap_err();
    assert!(matches!(err, SecurityError::CommandNotAllowed(_)));
}

#[test]
fn test_whitelist_rejects_absolute_path_not_whitelisted() {
    let p = SecurityPolicy::default();
    let err = p.validate("/bin/rm", &[]).unwrap_err();
    assert!(matches!(err, SecurityError::CommandNotAllowed(_)));
}

#[test]
fn test_whitelist_accepts_absolute_path_when_basename_allowed() {
    let p = SecurityPolicy::default();
    assert!(p.validate("/bin/echo", &["hi"]).is_ok());
}

#[test]
fn test_whitelist_rejects_shell_metacharacters() {
    let p = SecurityPolicy::default();
    let err = p.validate("echo", &["hello; rm -rf /"]).unwrap_err();
    assert!(matches!(err, SecurityError::ShellMetacharacter(_)));
    let err = p.validate("echo", &["$(whoami)"]).unwrap_err();
    assert!(matches!(err, SecurityError::ShellMetacharacter(_)));
    let err = p.validate("echo", &["a|b"]).unwrap_err();
    assert!(matches!(err, SecurityError::ShellMetacharacter(_)));
}

#[test]
fn test_whitelist_rejects_empty_command() {
    let p = SecurityPolicy::default();
    let err = p.validate("", &[]).unwrap_err();
    assert!(matches!(err, SecurityError::EmptyCommand));
}

#[test]
fn test_whitelist_configurable() {
    let p = SecurityPolicy::default().with_allowed_commands(&["only_this"]);
    assert!(p.validate("only_this", &[]).is_ok());
    assert!(p.validate("echo", &[]).is_err());
}

// --- path deny-list -----------------------------------------------

#[test]
fn test_path_traversal_rejected() {
    let p = SecurityPolicy::default();
    let err = p.validate("cat", &["../../etc/hosts"]).unwrap_err();
    assert!(matches!(err, SecurityError::PathTraversal(_)));
    let err = p.validate("ls", &["foo/../../bar"]).unwrap_err();
    assert!(matches!(err, SecurityError::PathTraversal(_)));
}

#[test]
fn test_deny_etc_shadow() {
    let p = SecurityPolicy::default();
    let err = p.validate("cat", &["/etc/shadow"]).unwrap_err();
    assert!(matches!(err, SecurityError::DeniedPath(_)));
}

#[test]
fn test_deny_etc_passwd() {
    let p = SecurityPolicy::default();
    let err = p.validate("cat", &["/etc/passwd"]).unwrap_err();
    assert!(matches!(err, SecurityError::DeniedPath(_)));
}

#[test]
fn test_deny_root_dir() {
    let p = SecurityPolicy::default();
    let err = p.validate("ls", &["/root/.bashrc"]).unwrap_err();
    assert!(matches!(err, SecurityError::DeniedPath(_)));
}

#[test]
fn test_deny_ssh_dir() {
    let p = SecurityPolicy::default();
    let err = p.validate("cat", &["/home/alice/.ssh/id_rsa"]).unwrap_err();
    assert!(matches!(err, SecurityError::DeniedPath(_)));
}

#[test]
fn test_deny_var_lib_secrets() {
    let p = SecurityPolicy::default();
    let err = p.validate("ls", &["/var/lib/secrets/db.key"]).unwrap_err();
    assert!(matches!(err, SecurityError::DeniedPath(_)));
}

#[test]
fn test_deny_agent_config_dir() {
    let p = SecurityPolicy::default().with_config_dir("/opt/sigops/conf");
    let err = p.validate("cat", &["/opt/sigops/conf/token"]).unwrap_err();
    assert!(matches!(err, SecurityError::DeniedPath(_)));
}

#[test]
fn test_deny_list_allows_normal_paths() {
    let p = SecurityPolicy::default();
    assert!(p.validate("ls", &["/tmp/foo"]).is_ok());
    assert!(p.validate("cat", &["/var/log/sigops.log"]).is_ok());
}

// --- further cases -------------------------------------------------

#[test]
fn test_error_payloads_name_the_offending_value() {
    let p = SecurityPolicy::default();
    assert_eq!(
        p.validate("rm", &[]),
        Err(SecurityError::CommandNotAllowed("rm".to_string()))
    );
    assert_eq!(
        p.validate("echo;", &[]),
        Err(SecurityError::ShellMetacharacter("echo;".to_string()))
    );
    assert_eq!(
        p.validate("cat", &["ok", "/etc/shadow", "a|b"]),
        Err(SecurityError::DeniedPath("/etc/shadow".to_string()))
    );
    assert_eq!(
        p.validate("cat", &["a`b`", "/etc/shadow"]),
        Err(SecurityError::ShellMetacharacter("a`b`".to_string()))
    );
    assert_eq!(
        p.check_arg("x/../y"),
        Err(SecurityError::PathTraversal("x/../y".to_string()))
    );
}

#[test]
fn test_traversal_checked_before_denied_paths() {
    let p = SecurityPolicy::default();
    assert_eq!(
        p.check_arg("/root/../etc"),
        Err(SecurityError::PathTraversal("/root/../etc".to_string()))
    );
}

#[test]
fn test_is_command_allowed_by_file_name() {
    let p = SecurityPolicy::default();
    assert!(p.is_command_allowed("echo"));
    assert!(p.is_command_allowed("/usr/bin/echo"));
    assert!(p.is_command_allowed("bin//echo/"));
    assert!(p.is_command_allowed("/bin/echo/."));
    assert!(!p.is_command_allowed(""));
    assert!(!p.is_command_allowed("/opt/x/rm"));
    // a command ending in `..` has no file name and is matched whole
    assert!(!p.is_command_allowed("/bin/echo/.."));
    assert!(!p.is_command_allowed("."));
}

#[test]
fn test_every_metacharacter_is_refused() {
    let p = SecurityPolicy::default();
    for arg in ["a;b", "a&b", "a|b", "a`b", "a$b", "a<b", "a>b", "a\nb", "a\rb", "a\0b"] {
        assert!(matches!(
            p.validate("echo", &[arg]),
            Err(SecurityError::ShellMetacharacter(_))
        ));
    }
}

#[test]
fn test_custom_denied_paths_replace_defaults() {
    let p = SecurityPolicy::default().with_denied_paths(&["/srv/private"]);
    assert!(p.validate("cat", &["/etc/shadow"]).is_ok());
    assert!(matches!(
        p.validate("cat", &["/srv/private/x"]),
        Err(SecurityError::DeniedPath(_))
    ));
    assert_eq!(p.denied_paths(), &["/srv/private".to_string()]);
}

#[test]
fn test_tilde_entries() {
    // `~/.ssh`: the part after `~` starts with `/`, so it is denied anywhere,
    // with or without a home directory.
    let p = SecurityPolicy::default().with_denied_paths(&["~/.ssh"]);
    assert!(p.check_arg("/home/bob/.ssh/id_rsa").is_err());
    assert!(p.check_arg("~/.ssh/id_rsa").is_err());
    assert!(p.check_arg("/tmp/x").is_ok());
    let p = p.with_home_dir(Some("/home/bob"));
    assert!(p.check_arg("/srv/.ssh/key").is_err());
    assert!(p.check_arg("/tmp/x").is_ok());
    // `~backup`: the literal entry, or its expansion under the home directory.
    let p = SecurityPolicy::default().with_denied_paths(&["~backup"]);
    assert!(p.check_arg("/home/bob/backup").is_ok());
    assert!(p.check_arg("x~backup").is_err());
    let p = p.with_home_dir(Some("/home/bob/"));
    assert!(p.check_arg("/home/bob/backup").is_err());
    assert!(p.check_arg("/mnt/home/bob/backup").is_err());
    assert!(p.check_arg("/home/eve/backup").is_ok());
}

#[test]
fn test_absolute_entries_match_as_prefixes() {
    let p = SecurityPolicy::default();
    assert!(matches!(p.check_arg("/root/.bashrc"), Err(SecurityError::DeniedPath(_))));
    assert!(matches!(p.check_arg("/root"), Err(SecurityError::DeniedPath(_))));
    assert!(p.check_arg("/tmp/root").is_ok());
    assert!(p.check_arg("cat:/etc/shadow").is_ok());
    assert!(p.check_arg("/srv/home/x").is_ok());
    // An entry without a leading `/` or `~` matches anywhere.
    let p = SecurityPolicy::default().with_denied_paths(&[".ssh"]);
    assert!(matches!(p.check_arg("/home/a/.ssh/id"), Err(SecurityError::DeniedPath(_))));
    assert!(p.check_arg("/home/a/ssh").is_ok());
    // The config directory is an absolute prefix too.
    let p = SecurityPolicy::default().with_config_dir("/opt/sigops/conf");
    assert!(p.check_arg("/opt/sigops/conf/token").is_err());
    assert!(p.check_arg("/backup/opt/sigops/conf/token").is_ok());
}

#[test]
fn test_error_messages() {
    assert_eq!(
        SecurityError::CommandNotAllowed("rm".to_string()).message(),
        "command not in whitelist: rm"
    );
    assert_eq!(SecurityError::EmptyCommand.message(), "empty command");
    assert_eq!(
        SecurityError::ShellMetacharacter("a;b".to_string()).message(),
        "shell metacharacter detected in command: a;b"
    );
    assert_eq!(
        SecurityError::DeniedPath("/root".to_string()).message(),
        "argument references denied path: /root"
    );
    assert_eq!(
        SecurityError::PathTraversal("../x".to_string()).message(),
        "path traversal ('..') is not permitted: ../x"
    );
    assert_eq!(
        SecurityError::Timeout { limit_secs: 30 }.message(),
        "command exceeded 30s timeout"
    );
    assert_eq!(
        SecurityError::Timeout { limit_secs: 0 }.message(),
        "command exceeded 0s timeout"
    );
    assert_eq!(
        SecurityError::Spawn { cmd: "echo".to_string(), reason: "gone".to_string() }.message(),
        "failed to spawn command echo: gone"
    );
    assert_eq!(
        SecurityError::InvalidToken("token is empty".to_string()).message(),
        "invalid token: token is empty"
    );
    assert_eq!(SecurityError::Io("disk".to_string()).message(), "io error: disk");
}

#[test]
fn test_default_policy_values() {
    let p = SecurityPolicy::default();
    let allowed: Vec<&str> = p.allowed_commands().iter().map(|s| s.as_str()).collect();
    assert_eq!(
        allowed,
        vec!["echo", "ls", "ps", "df", "cat", "uptime", "date", "systemctl", "service", "curl"]
    );
    let denied: Vec<&str> = p.denied_paths().iter().map(|s| s.as_str()).collect();
    assert_eq!(
        denied,
        vec!["/etc/shadow", "/etc/passwd", "/etc/gshadow", "/root", "/var/lib/secrets", "/.ssh", "/home/"]
    );
    assert_eq!(p.timeout(), Duration::from_secs(DEFAULT_EXEC_TIMEOUT_SECS));
    let p = p.with_timeout(Duration::from_millis(200));
    assert_eq!(p.timeout(), Duration::from_millis(200));
}

#[test]
fn test_poll_decisions() {
    assert_eq!(
        next_poll_action(&PollStatus::Exited { exit_code: Some(0) }, 10, 5),
        PollAction::Finish { exit_code: Some(0) }
    );
    assert_eq!(next_poll_action(&PollStatus::Running, 4, 5), PollAction::Sleep);
    assert_eq!(next_poll_action(&PollStatus::Running, 5, 5), PollAction::KillTimedOut);
    assert_eq!(next_poll_action(&PollStatus::WaitFailed, 0, 5), PollAction::Abort);
}

// --- run plans ------------------------------------------------------

/// The library's part of a fast run: the call is accepted under a 5 s
/// budget, and a child that has exited with 0 is collected before the
/// budget is spent.
#[test]
fn test_fast_command_completes_before_timeout() {
    let p = SecurityPolicy::default().with_timeout(Duration::from_secs(5));
    let plan = p.prepare_run("echo", &["hello"]).expect("echo should succeed");
    let budget = plan.timeout().as_nanos();
    assert_eq!(
        next_poll_action(&PollStatus::Exited { exit_code: Some(0) }, 1_000_000, budget),
        PollAction::Finish { exit_code: Some(0) }
    );
    assert_eq!(next_poll_action(&PollStatus::Running, 1_000_000, budget), PollAction::Sleep);
}

/// The library's part of a slow run: `sleep` is allowed for the test, the
/// budget is 200 ms, and a child still running at 200 ms is killed as timed
/// out.
#[test]
fn test_timeout_fires_when_command_sleeps_too_long() {
    let p = SecurityPolicy::default()
        .with_allowed_commands(&["sleep"])
        .with_timeout(Duration::from_millis(200));
    let plan = p.prepare_run("sleep", &["5"]).unwrap();
    let budget = plan.timeout().as_nanos();
    assert_eq!(budget, 200_000_000);
    assert_eq!(next_poll_action(&PollStatus::Running, 199_999_999, budget), PollAction::Sleep);
    assert_eq!(
        next_poll_action(&PollStatus::Running, 200_000_000, budget),
        PollAction::KillTimedOut
    );
}

#[test]
fn test_run_still_enforces_whitelist() {
    let p = SecurityPolicy::default();
    let err = p.prepare_run("rm", &["-rf", "/tmp/x"]).unwrap_err();
    assert!(matches!(err, SecurityError::CommandNotAllowed(_)));
}

#[test]
fn test_run_plan_carries_command_and_timeout() {
    let p = SecurityPolicy::default().with_timeout(Duration::from_secs(5));
    let plan = p.prepare_run("echo", &["hello"]).expect("echo should be accepted");
    assert_eq!(plan.command(), "echo");
    assert_eq!(plan.args(), &["hello".to_string()]);
    assert_eq!(plan.timeout(), Duration::from_secs(5));
    let p = SecurityPolicy::default()
        .with_allowed_commands(&["sleep"])
        .with_timeout(Duration::from_millis(200));
    let plan = p.prepare_run("sleep", &["5"]).unwrap();
    assert_eq!(plan.timeout(), Duration::from_millis(200));
    assert!(matches!(
        p.prepare_run("cat", &["/etc/shadow"]),
        Err(SecurityError::CommandNotAllowed(_))
    ));
}

#[test]
fn test_stricter_policy_accepts_less() {
    let loose = SecurityPolicy::default();
    let strict = SecurityPolicy::default()
        .with_allowed_commands(&["echo"])
        .with_denied_paths(&[
            "/etc/shadow",
            "/etc/passwd",
            "/etc/gshadow",
            "/root",
            "/var/lib/secrets",
            "/.ssh",
            "/home/",
            "/tmp/secret",
        ]);
    let calls: [(&str, &[&str]); 5] = [
        ("echo", &["hi"]),
        ("ls", &["/tmp"]),
        ("echo", &["/tmp/secret/x"]),
        ("cat", &["/etc/shadow"]),
        ("/bin/echo", &["ok"]),
    ];
    for (cmd, args) in calls {
        if strict.validate(cmd, args).is_ok() {
            assert!(loose.validate(cmd, args).is_ok());
        }
    }
    assert!(strict.validate("ls", &["/tmp"]).is_err());
    assert!(loose.validate("ls", &["/tmp"]).is_ok());
    assert!(strict.validate("echo", &["/tmp/secret/x"]).is_err());
    assert!(loose.validate("echo", &["/tmp/secret/x"]).is_ok());
}
