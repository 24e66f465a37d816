use sigops_agent::discovery::{
    discovered_tool, first_line_trimmed, found_tools, host_info, version_from_output,
    well_known_tools, DiscoveredTool,
};
use sigops_agent::health::{health_body, health_response};
use sigops_agent::Config;

fn config(agent_id: Option<&str>) -> Config {
    Config {
        server_url: "http://localhost:4200".to_string(),
        agent_id: agent_id.map(|s| s.to_string()),
        tenant_id: "t1".to_string(),
        api_token: "tok".to_string(),
        heartbeat_interval: 30,
        log_level: "info".to_string(),
    }
}

#[test]
fn test_default_config() {
    let config = config(None);
    assert!(!config.agent_id().is_empty());
    assert_eq!(config.server_url, "http://localhost:4200");
}

#[test]
fn test_explicit_agent_id() {
    let config = config(Some("my-agent"));
    assert_eq!(config.agent_id(), "my-agent");
}

#[test]
fn test_agent_id_generation() {
    let config = config(None);
    let id1 = config.agent_id();
    let id2 = config.agent_id();
    assert_ne!(id1, id2);
    assert_eq!(id1.len(), 36);
    assert_eq!(id1.as_bytes()[14], b'4');
    assert_eq!(id1.matches('-').count(), 4);
}

#[test]
fn test_health_response_format() {
    let s = health_body("test-agent-123", "0.1.0");
    assert!(s.contains("\"status\":\"ok\""));
    assert!(s.contains("sigops-agent"));
    assert!(s.contains("\"agentId\":\"test-agent-123\""));
    assert_eq!(
        s,
        "{\"agent\":\"sigops-agent\",\"agentId\":\"test-agent-123\",\"status\":\"ok\",\"version\":\"0.1.0\"}"
    );
}

#[test]
fn test_health_http_framing() {
    let r = health_response("{\"a\":\"é\"}");
    assert_eq!(
        r,
        "HTTP/1.1 200 OK\r\nContent-Type: application/json\r\nContent-Length: 10\r\nConnection: close\r\n\r\n{\"a\":\"é\"}"
    );
    let r = health_response("");
    assert!(r.contains("Content-Length: 0\r\n"));
}

#[test]
fn test_well_known_tools() {
    let tools = well_known_tools();
    let names: Vec<&str> = tools.iter().map(|t| t.name.as_str()).collect();
    assert_eq!(
        names,
        vec!["systemctl", "docker", "kubectl", "curl", "nginx", "python3", "node"]
    );
    assert_eq!(tools[2].version_args, vec!["version", "--client", "--short"]);
    assert_eq!(tools[4].version_args, vec!["-v"]);
}

#[test]
fn test_version_lines() {
    assert_eq!(
        first_line_trimmed("Docker version 24.0.0, build x\nmore\n"),
        Some("Docker version 24.0.0, build x".to_string())
    );
    assert_eq!(first_line_trimmed("v18.0.0\r\n"), Some("v18.0.0".to_string()));
    assert_eq!(first_line_trimmed(""), None);
    assert_eq!(first_line_trimmed("   \nv1"), None);
    assert_eq!(
        version_from_output(false, "", "nginx version: nginx/1.25.3\n"),
        Some("nginx version: nginx/1.25.3".to_string())
    );
    assert_eq!(version_from_output(true, "", "ignored"), None);
}

#[test]
fn test_discovered_tool_and_host_info() {
    let t = discovered_tool("docker", "/usr/bin/docker\n", Some("24.0.0".to_string()));
    assert_eq!(t.name, "docker");
    assert_eq!(t.path, "/usr/bin/docker");
    assert_eq!(t.version.as_deref(), Some("24.0.0"));
    let h = host_info(None, "linux");
    assert_eq!(h.hostname, "unknown");
    assert_eq!(h.os, "linux");
    assert!(h.ip_address.is_none());
    assert_eq!(host_info(Some("web-01"), "linux").hostname, "web-01");
}

/// The library's part of discovery: whatever the probes found is returned
/// as a vector, in probing order, with the tools that were not found left out.
#[test]
fn test_discover_tools_returns_vec() {
    let tool = |n: &str| DiscoveredTool {
        name: n.to_string(),
        version: None,
        path: format!("/usr/bin/{}", n),
    };
    let tools = found_tools(vec![None, Some(tool("docker")), None, Some(tool("curl")), None]);
    let _ = tools.len();
    assert_eq!(tools, vec![tool("docker"), tool("curl")]);
    assert!(found_tools(vec![None, None]).is_empty());
    assert!(found_tools(Vec::new()).is_empty());
}
