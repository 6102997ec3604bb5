use glorfindel::agent_tool::AgentTool;
use glorfindel::error::{AgentError, ToolError, TransportError};
use glorfindel::schemas::{Permission, Priority};

#[test]
fn agent_tool_hands_the_query_to_a_child_task() {
    let tool = AgentTool::new(
        "agent.rule-consultant",
        "Ask the rules consultant",
        vec![Permission::FileRead, Permission::Custom("rules.read".to_string())],
    );
    assert_eq!(tool.name(), "agent.rule-consultant");
    assert_eq!(tool.description(), "Ask the rules consultant");
    assert!(tool.required_permissions().is_empty());

    let t = tool.sub_task(42, Some("DC for Unfriendly NPC persuasion")).unwrap();
    assert_eq!(t.parent_task_id, Some(42));
    assert_ne!(t.task_id, 42);
    assert_eq!(t.intent, "DC for Unfriendly NPC persuasion");
    assert!(t.context.is_empty());
    assert_eq!(t.constraints.max_iterations, Some(6));
    assert_eq!(t.constraints.timeout_secs, Some(300));
    assert!(t.constraints.allowed_tools.is_empty());
    assert!(matches!(t.constraints.priority, Priority::Normal));
    assert_eq!(t.constraints.granted_permissions.len(), 2);
    assert!(matches!(t.constraints.granted_permissions[0], Permission::FileRead));
    assert!(matches!(&t.constraints.granted_permissions[1], Permission::Custom(s) if s == "rules.read"));
    assert_eq!(t.reply_to, "agent-tool:agent.rule-consultant");
}

#[test]
fn agent_tool_needs_a_query() {
    let tool = AgentTool::new("agent.x", "x", vec![]);
    match tool.sub_task(1, None) {
        Err(ToolError::MissingParameter(p)) => assert_eq!(p, "query"),
        _ => panic!("expected a missing query"),
    }
}

#[test]
fn agent_error_messages() {
    assert_eq!(AgentError::InferenceFailed("empty response from Ollama".into()).message(), "inference failed: empty response from Ollama");
    assert_eq!(AgentError::ModelNotAvailable("mistral".into()).message(), "model not available: mistral");
    assert_eq!(AgentError::ToolFailed("boom".into()).message(), "tool execution failed: boom");
    assert_eq!(AgentError::MaxIterationsExceeded.message(), "max iterations exceeded");
    assert_eq!(AgentError::Timeout.message(), "task timed out");
    assert_eq!(AgentError::Transport(TransportError::ChannelClosed).message(), "transport error: channel closed");
    assert_eq!(AgentError::Http("refused".into()).message(), "http error: refused");
}

#[test]
fn a_failed_sub_agent_is_a_failed_tool_result() {
    let t = AgentTool::new("rules", "Rules lawyer", vec![]);
    let r = t.failed(42, &AgentError::Timeout);
    assert_eq!(r.task_id, 42);
    assert_eq!(r.tool_name, "rules");
    assert_eq!(r.status, glorfindel::schemas::Status::Failed);
    assert!(r.side_effects.is_empty());
    assert_eq!(r.error.as_deref(), Some("task timed out"));
}
