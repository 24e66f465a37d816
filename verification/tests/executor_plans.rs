use sigops_agent::executor::{
    plan_task, task_outcome, TaskFields, TaskPlan, TaskStatus,
    is_valid_service_name,
    parse_compare_op, parse_http_output, parse_status_code, plan_http, plan_notify_slack,
    plan_restart, resolve_tool, slack_payload, split_condition, validate_url, CompareOp, Tool,
};
use sigops_agent::heartbeat::is_success_status;
use sigops_agent::security::SecurityPolicy;
use std::time::Duration;

fn pol() -> SecurityPolicy {
    SecurityPolicy::default()
}

#[test]
fn test_execute_unknown_tool() {
    let err = resolve_tool("sigops.nonexistent").unwrap_err();
    assert!(err.contains("unknown tool"));
    assert_eq!(err, "unknown tool: sigops.nonexistent");
    assert_eq!(resolve_tool("sigops.condition"), Ok(Tool::Condition));
    assert_eq!(resolve_tool("sigops.wait"), Ok(Tool::Wait));
    assert_eq!(resolve_tool("sigops.restart"), Ok(Tool::Restart));
    assert_eq!(resolve_tool("sigops.http"), Ok(Tool::Http));
    assert_eq!(resolve_tool("sigops.notify_slack"), Ok(Tool::NotifySlack));
}

#[test]
fn test_execute_condition_bad_expression() {
    assert!(split_condition(Some("not valid")).is_err());
}

#[test]
fn test_restart_invalid_service_name() {
    let err = plan_restart(&pol(), Some("nginx; rm -rf /"), None).unwrap_err();
    assert!(err.contains("invalid service name"));
}

#[test]
fn test_notify_slack_missing_channel() {
    let err = plan_notify_slack(&pol(), None, Some("hello"), None).unwrap_err();
    assert!(err.contains("channel"));
}

#[test]
fn test_notify_slack_missing_message() {
    let err = plan_notify_slack(&pol(), Some("#alerts"), None, None).unwrap_err();
    assert!(err.contains("message"));
}

#[test]
fn test_notify_slack_missing_webhook_url() {
    let err = plan_notify_slack(&pol(), Some("#alerts"), Some("hello"), None).unwrap_err();
    assert!(
        err.contains("webhookUrl is required"),
        "expected webhookUrl required error, got: {}",
        err
    );
}

#[test]
fn test_http_invalid_url() {
    let err = plan_http(&pol(), Some("ftp://example.com/file"), None).unwrap_err();
    assert!(
        err.contains("invalid URL scheme"),
        "expected invalid URL scheme error, got: {}",
        err
    );
}

#[test]
fn test_http_no_scheme() {
    let err = plan_http(&pol(), Some("example.com/path"), None).unwrap_err();
    assert!(
        err.contains("invalid URL scheme"),
        "expected invalid URL scheme error, got: {}",
        err
    );
}

#[test]
fn test_http_with_newlines() {
    let err = plan_http(&pol(), Some("http://example.com/path\r\nHost: evil.com"), None).unwrap_err();
    assert!(
        err.contains("newline") || err.contains("control"),
        "expected newline/control char error, got: {}",
        err
    );
}

#[test]
fn test_http_with_null_bytes() {
    let err = plan_http(&pol(), Some("http://example.com/\0path"), None).unwrap_err();
    assert!(
        err.contains("null") || err.contains("control"),
        "expected null byte/control char error, got: {}",
        err
    );
}

#[test]
fn test_http_has_timeout_args() {
    let spec = plan_http(&pol(), Some("http://example.com"), Some("GET")).unwrap();
    let args: Vec<&str> = spec.args.iter().map(|s| s.as_str()).collect();
    assert!(args.contains(&"--max-time"));
    assert!(args.contains(&"30"));
    assert!(args.contains(&"--connect-timeout"));
    assert!(args.contains(&"5"));
}

#[test]
fn test_curl_timeout_flags() {
    let http = plan_http(&pol(), Some("http://example.com"), Some("GET")).unwrap();
    let http_args: Vec<&str> = http.args.iter().map(|s| s.as_str()).collect();
    assert_eq!(
        http_args,
        vec![
            "-s",
            "--max-time",
            "30",
            "--connect-timeout",
            "5",
            "-w",
            "\n%{http_code}",
            "-X",
            "GET",
            "http://example.com",
        ]
    );
    assert!(http_args.contains(&"--max-time"));
    assert!(http_args.contains(&"30"));
    assert!(http_args.contains(&"--connect-timeout"));
    assert!(http_args.contains(&"5"));

    let slack = plan_notify_slack(&pol(), Some("#c"), Some("m"), Some("https://hooks.slack.com/test"))
        .unwrap();
    let slack_args: Vec<&str> = slack.args.iter().map(|s| s.as_str()).collect();
    assert_eq!(slack.program, "curl");
    assert_eq!(
        slack_args,
        vec![
            "-s",
            "-o",
            "/dev/null",
            "-w",
            "%{http_code}",
            "--max-time",
            "10",
            "--connect-timeout",
            "5",
            "-X",
            "POST",
            "-H",
            "Content-Type: application/json",
            "-d",
            "{\"channel\":\"#c\",\"text\":\"m\"}",
            "https://hooks.slack.com/test",
        ]
    );
    assert!(slack_args.contains(&"--max-time"));
    assert!(slack_args.contains(&"10"));
    assert!(slack_args.contains(&"--connect-timeout"));
    assert!(slack_args.contains(&"5"));
}

#[test]
fn test_http_response_body_capture() {
    let reply = parse_http_output("Hello, World!\n200");
    assert_eq!(reply.body, "Hello, World!");
    assert_eq!(reply.status, 200);
    assert!(is_success_status(reply.status));
}

#[test]
fn test_http_response_body_multiline() {
    let reply = parse_http_output("line1\nline2\nline3\n200");
    assert_eq!(reply.body, "line1\nline2\nline3");
    assert_eq!(reply.status, 200);
}

#[test]
fn test_http_output_edge_cases() {
    let reply = parse_http_output("404\n");
    assert_eq!(reply.body, "");
    assert_eq!(reply.status, 404);
    let reply = parse_http_output("body\n  503  \n");
    assert_eq!(reply.body, "body");
    assert_eq!(reply.status, 503);
    let reply = parse_http_output("body\nnot-a-number");
    assert_eq!(reply.status, 0);
    let reply = parse_http_output("x\n70000");
    assert_eq!(reply.status, 0);
    let reply = parse_http_output("x\n+201");
    assert_eq!(reply.status, 201);
    assert!(!is_success_status(300));
    assert!(is_success_status(299));
}

#[test]
fn test_validate_url_valid() {
    assert!(validate_url("http://example.com").is_ok());
    assert!(validate_url("https://example.com/path?q=1").is_ok());
}

#[test]
fn test_validate_url_no_scheme() {
    assert!(validate_url("example.com").is_err());
    assert!(validate_url("ftp://example.com").is_err());
}

#[test]
fn test_validate_url_control_chars() {
    assert!(validate_url("http://example.com/\x01").is_err());
    assert!(validate_url("http://example.com/\x7f").is_err());
}

#[test]
fn test_validate_url_messages() {
    assert_eq!(
        validate_url("ftp://x").unwrap_err(),
        "invalid URL scheme: URL must start with http:// or https://, got: ftp://x"
    );
    assert_eq!(
        validate_url("http://x\n").unwrap_err(),
        "invalid URL: contains newline characters"
    );
    assert_eq!(
        validate_url("http://x\0").unwrap_err(),
        "invalid URL: contains null bytes"
    );
    assert_eq!(
        validate_url("http://x\u{85}").unwrap_err(),
        "invalid URL: contains control characters"
    );
}

#[test]
fn test_restart_plan() {
    let p = plan_restart(&pol(), Some("nginx"), None).unwrap();
    assert_eq!(p.program, "systemctl");
    assert_eq!(p.args, vec!["restart".to_string(), "nginx".to_string()]);
    let p = plan_restart(&pol(), Some("my-svc_1.service"), Some("service")).unwrap();
    assert_eq!(p.program, "service");
    assert_eq!(plan_restart(&pol(), None, None).unwrap_err(), "missing 'service' field");
}

#[test]
fn test_http_plan_defaults_and_missing_url() {
    let p = plan_http(&pol(), Some("https://example.com"), None).unwrap();
    assert_eq!(p.program, "curl");
    assert_eq!(p.args[8], "GET");
    assert_eq!(p.args[9], "https://example.com");
    assert_eq!(plan_http(&pol(), None, None).unwrap_err(), "missing 'url' field");
}

#[test]
fn test_slack_payload_escapes() {
    assert_eq!(
        slack_payload("#ops", "say \"hi\"\n"),
        "{\"channel\":\"#ops\",\"text\":\"say \\\"hi\\\"\\n\"}"
    );
    assert_eq!(parse_status_code(" 200\n"), 200);
    assert_eq!(parse_status_code("000"), 0);
    assert_eq!(parse_status_code(""), 0);
}

#[test]
fn test_condition_split_and_operators() {
    let c = split_condition(Some("  10   >\t5 ")).unwrap();
    assert_eq!((c.lhs.as_str(), c.op.as_str(), c.rhs.as_str()), ("10", ">", "5"));
    assert_eq!(
        split_condition(Some("1 == 2 3")).unwrap_err(),
        "unsupported expression: 1 == 2 3"
    );
    assert_eq!(split_condition(None).unwrap_err(), "missing 'expression' field");
    assert_eq!(parse_compare_op("=="), Ok(CompareOp::Eq));
    assert_eq!(parse_compare_op("!="), Ok(CompareOp::Ne));
    assert_eq!(parse_compare_op(">="), Ok(CompareOp::Ge));
    assert_eq!(parse_compare_op("<="), Ok(CompareOp::Le));
    assert_eq!(parse_compare_op("<"), Ok(CompareOp::Lt));
    assert_eq!(parse_compare_op(">"), Ok(CompareOp::Gt));
    assert_eq!(parse_compare_op("=>").unwrap_err(), "unknown operator: =>");
}

#[test]
fn test_service_names() {
    assert!(is_valid_service_name("nginx"));
    assert!(is_valid_service_name("my-svc_1.service"));
    assert!(is_valid_service_name("dienst-ü"));
    assert!(is_valid_service_name(""));
    assert!(!is_valid_service_name("a b"));
    assert!(!is_valid_service_name("a/b"));
    assert!(!is_valid_service_name("$(x)"));
}

#[test]
fn test_task_dispatch() {
    let mut f = TaskFields {
        service: None,
        method: None,
        url: None,
        channel: None,
        message: None,
        webhook_url: None,
        expression: Some("10 == 10".to_string()),
    };
    match plan_task(&pol(), "sigops.condition", &f).unwrap() {
        TaskPlan::Compare(c) => assert_eq!((c.lhs.as_str(), c.op.as_str(), c.rhs.as_str()), ("10", "==", "10")),
        other => panic!("unexpected plan {:?}", other),
    }
    assert_eq!(plan_task(&pol(), "sigops.wait", &f), Ok(TaskPlan::Wait));
    assert_eq!(
        plan_task(&pol(), "sigops.nonexistent", &f).unwrap_err(),
        "unknown tool: sigops.nonexistent"
    );
    assert_eq!(
        plan_task(&pol(), "sigops.restart", &f).unwrap_err(),
        "missing 'service' field"
    );
    f.service = Some("nginx".to_string());
    match plan_task(&pol(), "sigops.restart", &f).unwrap() {
        TaskPlan::Restart(p) => {
            assert_eq!(p.program, "systemctl");
            assert_eq!(p.args, vec!["restart".to_string(), "nginx".to_string()]);
        }
        other => panic!("unexpected plan {:?}", other),
    }
    f.url = Some("https://example.com".to_string());
    f.method = Some("POST".to_string());
    match plan_task(&pol(), "sigops.http", &f).unwrap() {
        TaskPlan::Http(p) => assert_eq!(p.args[8], "POST"),
        other => panic!("unexpected plan {:?}", other),
    }
    assert_eq!(
        plan_task(&pol(), "sigops.notify_slack", &f).unwrap_err(),
        "missing 'channel' field"
    );
}

#[test]
fn test_restart_method_must_pass_whitelist() {
    let err = plan_restart(&pol(), Some("nginx"), Some("/tmp/evil")).unwrap_err();
    assert_eq!(err, "command not in whitelist: /tmp/evil");
    let err = plan_restart(&pol(), Some("nginx"), Some("rm")).unwrap_err();
    assert_eq!(err, "command not in whitelist: rm");
    let err = plan_restart(&pol(), Some("nginx"), Some("")).unwrap_err();
    assert_eq!(err, "empty command");
    let err = plan_restart(&pol(), Some("a..b"), None).unwrap_err();
    assert_eq!(err, "path traversal ('..') is not permitted: a..b");
    // An absolute path to an allowed program is accepted.
    let p = plan_restart(&pol(), Some("nginx"), Some("/usr/bin/systemctl")).unwrap();
    assert_eq!(p.program, "/usr/bin/systemctl");
    // A policy that does not allow systemctl refuses the default method.
    let strict = SecurityPolicy::default().with_allowed_commands(&["echo"]);
    assert_eq!(
        plan_restart(&strict, Some("nginx"), None).unwrap_err(),
        "command not in whitelist: systemctl"
    );
}

#[test]
fn test_plans_carry_the_policy_timeout() {
    let p = SecurityPolicy::default().with_timeout(Duration::from_secs(7));
    assert_eq!(plan_restart(&p, Some("nginx"), None).unwrap().timeout, Duration::from_secs(7));
    assert_eq!(
        plan_http(&p, Some("https://example.com"), None).unwrap().timeout,
        Duration::from_secs(7)
    );
    assert_eq!(
        plan_notify_slack(&p, Some("#c"), Some("m"), Some("https://hooks.slack.com/x"))
            .unwrap()
            .timeout,
        Duration::from_secs(7)
    );
    assert_eq!(
        plan_restart(&pol(), Some("nginx"), None).unwrap().timeout,
        Duration::from_secs(30)
    );
}

#[test]
fn test_curl_must_be_allowed() {
    let strict = SecurityPolicy::default().with_allowed_commands(&["systemctl"]);
    assert_eq!(
        plan_http(&strict, Some("https://example.com"), None).unwrap_err(),
        "command not in whitelist: curl"
    );
    assert_eq!(
        plan_notify_slack(&strict, Some("#c"), Some("m"), Some("https://hooks.slack.com/x"))
            .unwrap_err(),
        "command not in whitelist: curl"
    );
    // Field errors come first.
    assert_eq!(plan_http(&strict, None, None).unwrap_err(), "missing 'url' field");
    let f = TaskFields {
        service: None,
        method: None,
        url: Some("https://example.com".to_string()),
        channel: None,
        message: None,
        webhook_url: None,
        expression: None,
    };
    assert_eq!(plan_task(&strict, "sigops.http", &f).unwrap_err(), "command not in whitelist: curl");
}

#[test]
fn test_json_escapes_control_characters() {
    assert_eq!(
        slack_payload("a\u{1}b\u{8}\u{c}\t\r\\", "\u{1f}\u{7f}é"),
        "{\"channel\":\"a\\u0001b\\b\\f\\t\\r\\\\\",\"text\":\"\\u001f\u{7f}é\"}"
    );
    assert_eq!(sigops_agent::json::json_quote("\u{1b}x"), "\"\\u001bx\"");
    assert_eq!(sigops_agent::json::json_quote(""), "\"\"");
}

#[test]
fn test_task_outcome_pairs_status_output_and_error() {
    assert_eq!(
        task_outcome::<u32>(Ok(7), 0),
        (TaskStatus::Success, 7, None)
    );
    assert_eq!(
        task_outcome::<u32>(Err("boom".to_string()), 0),
        (TaskStatus::Failed, 0, Some("boom".to_string()))
    );
}
