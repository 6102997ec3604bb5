use glorfindel::agent::{
    build_system_prompt, context_role_name, context_window, default_agent_name, extract_braced_object, is_rewrite,
    ollama_capability, strip_fences, tool_schema_example, ChatMessage, OllamaAgent,
};
use glorfindel::tools::{ToolExecutor, ToolSpec};
use glorfindel::schemas::{AgentType, ContextRole, ModelBackend};

#[test]
fn schema_examples() {
    assert_eq!(tool_schema_example("dice.roll"), "dice.roll       → {\"action\":\"dice.roll\",\"notation\":\"2d6+3\",\"justification\":\"why\"}");
    assert!(tool_schema_example("agent.scribe").starts_with("agent.<name>"));
    assert!(tool_schema_example("mystery").starts_with("unknown"));
}

#[test]
fn system_prompt_lists_tools() {
    let p = build_system_prompt(None, &vec![]);
    assert!(p.starts_with("You are an AI agent in the Glorfindel framework.\n\nRespond ONLY"));
    assert!(p.ends_with("Available tools (use exact parameter names shown):\n  (none available)"));
    let p = build_system_prompt(Some("Be brief."), &vec!["dice.roll".to_string(), "file.read".to_string()]);
    assert!(p.starts_with("Be brief.\n\n"));
    assert!(p.ends_with(&format!("  {}\n  {}", tool_schema_example("dice.roll"), tool_schema_example("file.read"))));
}

#[test]
fn replies_unfenced_and_braced() {
    assert_eq!(strip_fences("  ```json\n{\"a\":1}\n```  "), "{\"a\":1}");
    assert_eq!(strip_fences("```\nx\n``````"), "x");
    assert_eq!(extract_braced_object("Sure! {\"action\":{\"x\":1}} trailing }"), Some("{\"action\":{\"x\":1}}".to_string()));
    assert_eq!(extract_braced_object("no braces"), None);
    assert_eq!(extract_braced_object("{ unclosed"), None);
}

fn msg(role: &str, content: &str) -> ChatMessage {
    ChatMessage { role: role.to_string(), content: content.to_string() }
}

#[test]
fn context_window_keeps_task() {
    let short: Vec<ChatMessage> = (0..5).map(|i| msg("user", &i.to_string())).collect();
    assert_eq!(context_window(&short, 1).len(), 5);
    let long: Vec<ChatMessage> = (0..10).map(|i| msg("user", &i.to_string())).collect();
    let w: Vec<String> = context_window(&long, 1).into_iter().map(|m| m.content).collect();
    assert_eq!(w, vec!["0", "1", "6", "7", "8", "9"]);
}

#[test]
fn context_window_never_drops_the_intent_after_seeded_context() {
    let mut ms = vec![msg("system", "prompt"), msg("system", "campaign context"), msg("user", "the intent")];
    for i in 0..6 {
        ms.push(msg(if i % 2 == 0 { "assistant" } else { "user" }, &format!("turn {i}")));
    }
    let w: Vec<String> = context_window(&ms, 2).into_iter().map(|m| m.content).collect();
    assert_eq!(w, vec!["prompt", "the intent", "turn 2", "turn 3", "turn 4", "turn 5"]);
}

#[test]
fn context_window_keeps_the_intent_after_user_role_context() {
    let mut ms = vec![msg("system", "prompt"), msg("user", "earlier tool output"), msg("user", "the intent")];
    for i in 0..6 {
        ms.push(msg(if i % 2 == 0 { "assistant" } else { "user" }, &format!("turn {i}")));
    }
    let w: Vec<String> = context_window(&ms, 2).into_iter().map(|m| m.content).collect();
    assert_eq!(w, vec!["prompt", "the intent", "turn 2", "turn 3", "turn 4", "turn 5"]);
}

#[test]
fn roles_and_rewrites() {
    assert_eq!(context_role_name(ContextRole::ToolOutput), "user");
    assert_eq!(context_role_name(ContextRole::Assistant), "assistant");
    let written = vec!["a.md".to_string()];
    assert!(is_rewrite("campaign.write", Some("a.md"), &written));
    assert!(!is_rewrite("campaign.write", Some("b.md"), &written));
    assert!(!is_rewrite("campaign.read", Some("a.md"), &written));
    assert!(!is_rewrite("campaign.write", None, &written));
}

#[test]
fn capability_manifest() {
    assert_eq!(default_agent_name("mistral"), "Ollama Agent (mistral)");
    let m = ollama_capability("id1", "n", AgentType::Planner, &vec!["dice.roll".to_string()], "mistral", "http://h", &vec![]);
    assert_eq!(m.agent_id, "id1");
    assert!(m.resource_requirements.gpu_required);
    assert_eq!(m.resource_requirements.min_vram_mb, Some(4096));
    assert!(matches!(m.model_backend, ModelBackend::Ollama { ref model, .. } if model == "mistral"));
}

#[test]
fn ollama_agent_builders_and_capability() {
    let mut executor = ToolExecutor::new();
    executor.register(ToolSpec { name: "dice.roll".to_string(), permissions: vec![] });
    let agent = OllamaAgent::new("a1", "mistral", "http://h:11434", executor, vec!["rules".to_string()]);
    assert_eq!(agent.name, "Ollama Agent (mistral)");
    assert_eq!(agent.agent_type, AgentType::Executor);
    assert!(agent.custom_system_prompt.is_none());
    assert!(agent.system_prompt().starts_with("You are an AI agent in the Glorfindel framework."));
    let agent = agent.with_name("Rules").with_agent_type(AgentType::Specialist).with_system_prompt("Be terse.");
    assert_eq!(agent.name, "Rules");
    assert_eq!(agent.agent_type, AgentType::Specialist);
    assert_eq!(agent.model, "mistral");
    assert!(agent.system_prompt().starts_with("Be terse.\n\nRespond ONLY"));
    assert!(agent.system_prompt().contains("dice.roll"));
    let cap = agent.capability();
    assert_eq!(cap.agent_id, "a1");
    assert_eq!(cap.name, "Rules");
    assert_eq!(cap.tools_available, vec!["dice.roll".to_string()]);
    assert_eq!(cap.domains, vec!["rules".to_string()]);
    assert!(matches!(cap.model_backend, ModelBackend::Ollama { ref model, ref host } if model == "mistral" && host == "http://h:11434"));
}
