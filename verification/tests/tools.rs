use glorfindel::dice::DiceRollTool;
use glorfindel::error::{ToolError, TransportError};
use glorfindel::schemas::{permission_debug_text, Permission};
use glorfindel::tools::{
    command_effect_text, command_error, file_write_effect_text, command_timeout_text, grep_matches,
    campaign_file_path, campaign_write_effect_text, catalog, BashTool, CampaignListTool, CampaignReadTool,
    CampaignWriteTool, FileReadTool, FileWriteTool, SearchTool, ToolAccess, ToolExecutor, ToolSpec,
};
use glorfindel::transport::{topic_tasks_request, DdsControlPlane, ZmqDataPlane};

#[test]
fn tool_identities() {
    assert_eq!(BashTool::default().timeout_secs, 30);
    assert_eq!(BashTool::new(5).name(), "bash.exec");
    assert!(matches!(BashTool::new(5).required_permissions()[..], [Permission::BashExec]));
    assert_eq!(FileReadTool.name(), "file.read");
    assert_eq!(FileWriteTool.name(), "file.write");
    assert_eq!(SearchTool.name(), "search.grep");
    assert_eq!(DiceRollTool.name(), "dice.roll");
    assert!(DiceRollTool.required_permissions().is_empty());
    let r = CampaignReadTool::new("/data/c");
    assert_eq!(r.campaign_dir, "/data/c");
    assert!(matches!(&r.required_permissions()[..], [Permission::Custom(p)] if p == "campaign.read"));
    assert!(matches!(&CampaignWriteTool::new(".").required_permissions()[..], [Permission::Custom(p)] if p == "campaign.write"));
    assert!(matches!(&CampaignListTool::new(".").required_permissions()[..], [Permission::Custom(p)] if p == "campaign.read"));
}

#[test]
fn catalog_lists_nine_tools() {
    let c = catalog();
    let names: Vec<&str> = c.iter().map(|e| e.name.as_str()).collect();
    assert_eq!(names, vec!["file.read", "file.write", "bash.exec", "search.grep", "campaign.read", "campaign.write", "campaign.list", "rulebook.search", "dice.roll"]);
    assert!(c[4].requires_campaign_dir && !c[0].requires_campaign_dir);
    assert!(c[8].permissions.is_empty());
    assert_eq!(c[8].description, "Roll dice using standard notation (d20, 2d6+3). No permissions needed.");
}

#[test]
fn campaign_paths_stay_inside() {
    assert_eq!(campaign_file_path("/data/c", "session4/scene.md").unwrap(), "/data/c/session4/scene.md");
    assert_eq!(campaign_file_path("/data/c/", "npcs.md").unwrap(), "/data/c/npcs.md");
    for bad in ["../x.md", "a\\b.md", "/etc/passwd", "a/../b"] {
        match campaign_file_path("/data/c", bad) {
            Err(ToolError::InvalidParameter(m)) => assert_eq!(m, format!("invalid filename: {bad}")),
            _ => panic!("accepted {bad}"),
        }
    }
    assert_eq!(campaign_write_effect_text(true, "héllo", "notes.md"), "Appended 6 bytes to campaign file notes.md");
    assert_eq!(campaign_write_effect_text(false, "", "n.md"), "Wrote 0 bytes to campaign file n.md");
}

fn spec(name: &str, perms: Vec<Permission>) -> ToolSpec {
    ToolSpec { name: name.to_string(), permissions: perms }
}

#[test]
fn executor_denies_by_default() {
    let mut ex = ToolExecutor::new();
    ex.register(spec("file.read", vec![Permission::FileRead]));
    ex.register(spec("campaign.write", vec![Permission::Custom("campaign.write".to_string())]));
    ex.register(spec("dice.roll", vec![]));
    assert_eq!(ex.available_tools(), vec!["file.read".to_string(), "campaign.write".to_string(), "dice.roll".to_string()]);
    assert!(matches!(ex.authorize("dice.roll", &vec![]), ToolAccess::Allowed));
    assert!(matches!(ex.authorize("file.read", &vec![Permission::FileRead]), ToolAccess::Allowed));
    match ex.authorize("file.read", &vec![Permission::FileWrite]) {
        ToolAccess::Denied(m) => assert_eq!(m, "requires permission: FileRead"),
        _ => panic!("expected a denial"),
    }
    match ex.authorize("campaign.write", &vec![]) {
        ToolAccess::Denied(m) => assert_eq!(m, "requires permission: Custom(\"campaign.write\")"),
        _ => panic!("expected a denial"),
    }
    match ex.authorize("nope", &vec![]) {
        ToolAccess::Unknown(ToolError::ExecutionFailed(m)) => assert_eq!(m, "unknown tool: nope"),
        _ => panic!("expected an unknown tool"),
    }
    ex.register(spec("file.read", vec![]));
    assert!(matches!(ex.authorize("file.read", &vec![]), ToolAccess::Allowed));
    assert_eq!(ex.available_tools().len(), 3);
}

#[test]
fn permission_debug_forms() {
    assert_eq!(permission_debug_text(&Permission::NetworkAccess), "NetworkAccess");
    assert_eq!(permission_debug_text(&Permission::Custom("a\"b".to_string())), "Custom(\"a\\\"b\")");
    assert!(Permission::Custom("x".to_string()).same_as(&Permission::Custom("x".to_string())));
    assert!(!Permission::FileRead.same_as(&Permission::FileWrite));
}

#[test]
fn error_messages() {
    assert_eq!(ToolError::MissingParameter("notation".to_string()).message(), "missing required parameter: notation");
    assert_eq!(ToolError::PermissionDenied("BashExec".to_string()).message(), "permission denied: requires BashExec");
    assert_eq!(TransportError::Timeout.message(), "timeout waiting for message");
    assert_eq!(TransportError::Zmq("down".to_string()).message(), "ZMQ error: down");
}

#[test]
fn transport_config() {
    assert_eq!(DdsControlPlane::new(7).domain_id, 7);
    let z = ZmqDataPlane::new("tcp://a:1", "tcp://b:2");
    assert_eq!((z.tool_call_endpoint.as_str(), z.tool_result_endpoint.as_str()), ("tcp://a:1", "tcp://b:2"));
    assert_eq!(topic_tasks_request(), "glorfindel/tasks/request");
}

#[test]
fn command_outcomes() {
    assert_eq!(command_effect_text("ls -la"), "Executed: ls -la");
    assert_eq!(file_write_effect_text("héllo", "/tmp/a"), "Wrote 6 bytes to /tmp/a");
    assert_eq!(command_error(0, "ignored"), None);
    assert_eq!(command_error(2, "no such file"), Some("exit code 2: no such file".to_string()));
    assert_eq!(command_error(-1, ""), Some("exit code -1: ".to_string()));
    assert_eq!(command_timeout_text(30), "command timed out after 30s");
    let out: String = (0..150).map(|i| format!("f.rs:{i}:x\n")).collect();
    let (m, more) = grep_matches(&out);
    assert_eq!(m.len(), 100);
    assert_eq!(m[99], "f.rs:99:x");
    assert!(more);
    let (m, more) = grep_matches("a:1:x\nb:2:y");
    assert_eq!(m, vec!["a:1:x", "b:2:y"]);
    assert!(!more);
}

#[test]
fn execute_runs_the_tool_only_when_permitted() {
    let mut ex = glorfindel::tools::ToolExecutor::new();
    ex.register(glorfindel::tools::ToolSpec { name: "bash.exec".to_string(), permissions: vec![glorfindel::schemas::Permission::BashExec] });
    let calls = std::cell::Cell::new(0);
    let run = |id: u128| {
        calls.set(calls.get() + 1);
        Ok(glorfindel::messages::ToolResult::success(id, "bash.exec", serde_json::Value::Null))
    };
    let denied = ex.execute("bash.exec", 5, &vec![], &run).unwrap();
    assert_eq!(denied.status, glorfindel::schemas::Status::Denied);
    assert_eq!(denied.error.as_deref(), Some("requires permission: BashExec"));
    assert!(denied.side_effects.is_empty());
    assert_eq!(calls.get(), 0);
    ex.register(glorfindel::tools::ToolSpec { name: "bash.exec".to_string(), permissions: vec![] });
    assert_eq!(ex.available_tools(), vec!["bash.exec".to_string()]);
    ex.register(glorfindel::tools::ToolSpec { name: "bash.exec".to_string(), permissions: vec![glorfindel::schemas::Permission::BashExec] });
    let ok = ex.execute("bash.exec", 5, &vec![glorfindel::schemas::Permission::BashExec], &run).unwrap();
    assert_eq!(ok.status, glorfindel::schemas::Status::Complete);
    assert_eq!(calls.get(), 1);
    assert!(ex.execute("nope", 5, &vec![], &run).is_err());
    assert_eq!(calls.get(), 1);
}
