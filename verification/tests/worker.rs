use glorfindel::assistant::JsonField;
use glorfindel::worker::{
    campaign_write_event, event_topic, EventKind,
    event_excerpt, file_write_event, find_agent_model, ingest_domain, ingest_intent, plan_data_plane_call,
    plan_executor, plan_tool, responder, sub_agent_description, sub_agent_prompt, task_kind, task_type_of,
    tool_event_output, AgentEndpoint, DataPlaneOp, TaskKind, TaskWorker, ToolPlan,
};

fn text_field(key: &str, text: &str) -> JsonField {
    JsonField { key: key.to_string(), text: Some(text.to_string()), json: format!("\"{text}\"") }
}

#[test]
fn task_types_from_intents() {
    assert_eq!(task_type_of("{\"task_type\":\"fact_check\",\"model\":\"m\"}"), "fact_check");
    assert_eq!(task_type_of("{\"task_type\":3}"), "");
    assert_eq!(task_type_of("not json"), "");
    assert_eq!(task_type_of("[1,2]"), "");
    assert_eq!(task_kind("scene_player_turn"), TaskKind::ScenePlayerTurn);
    assert_eq!(task_kind("dm_summarize"), TaskKind::DmSummarize);
    assert_eq!(task_kind("nope"), TaskKind::Unknown);
    assert_eq!(responder(TaskKind::CharImpact), Some("char-impact"));
    assert_eq!(responder(TaskKind::SceneSummary), Some("scene-summarizer"));
    assert_eq!(responder(TaskKind::Unknown), None);
}

#[test]
fn tasks_run_once() {
    let mut w = TaskWorker::new();
    assert_eq!(w.accept(7, "{\"task_type\":\"rules_assess\"}"), Some(TaskKind::RulesAssess));
    assert_eq!(w.accept(7, "{\"task_type\":\"rules_assess\"}"), None);
    assert_eq!(w.accept(8, "{}"), Some(TaskKind::Unknown));
    assert!(w.take(9));
    assert!(!w.take(9));
    assert_eq!(w.seen, vec![7, 8, 9]);
}

#[test]
fn step_models_by_domain() {
    let defs = vec![
        AgentEndpoint { ollama_host: "h1".into(), model: "m1".into(), domains: vec!["ttrpg-rules".into()] },
        AgentEndpoint { ollama_host: "h2".into(), model: "m2".into(), domains: vec!["dm-narrative".into(), "x".into()] },
    ];
    assert_eq!(find_agent_model(&defs, "dm-narrative", "fh", "fm"), ("h2".to_string(), "m2".to_string()));
    assert_eq!(find_agent_model(&defs, "dm-summary", "fh", "fm"), ("fh".to_string(), "fm".to_string()));
}

#[test]
fn data_plane_calls() {
    assert!(matches!(plan_data_plane_call("file.read", Some("/a"), None), DataPlaneOp::Read { ref path } if path == "/a"));
    assert!(matches!(plan_data_plane_call("file.write", None, Some("x")), DataPlaneOp::Write { ref path, ref content } if path.is_empty() && content == "x"));
    assert!(matches!(plan_data_plane_call("file.append", Some("p"), Some("c")), DataPlaneOp::Append { .. }));
    assert!(matches!(plan_data_plane_call("file.delete", None, None), DataPlaneOp::Unknown(ref m) if m == "unknown tool: file.delete"));
    assert_eq!(file_write_event("file.write", Some("/t.md"), Some("héllo")), Some(("/t.md".to_string(), 6)));
    assert_eq!(file_write_event("file.append", Some("/t.md"), None), Some(("/t.md".to_string(), 0)));
    assert_eq!(file_write_event("file.read", Some("/t.md"), Some("x")), None);
    assert_eq!(file_write_event("file.write", None, Some("x")), None);
}

#[test]
fn executor_plans() {
    let ctx = vec![
        text_field("rulebook_dir", "/rules"),
        text_field("sub_agents.scribe", "id-1"),
    ];
    let subs = vec![text_field("oracle", "id-2")];
    let names: Vec<String> = ["file.read", "campaign.write", "rulebook.search", "agent.scribe", "agent.oracle", "agent.ghost", "weird", "dice.roll"]
        .iter().map(|s| s.to_string()).collect();
    let plans = plan_executor(&names, Some("/camp"), &ctx, &subs);
    assert_eq!(plans.len(), 8);
    assert!(matches!(plans[0], ToolPlan::FileRead));
    assert!(matches!(plans[1], ToolPlan::CampaignWrite(ref d) if d == "/camp"));
    assert!(matches!(plans[2], ToolPlan::Rulebook { ref dir, ref ollama_host, ref embed_model }
        if dir == "/rules" && ollama_host == "http://localhost:11434" && embed_model == "nomic-embed-text"));
    assert!(matches!(plans[3], ToolPlan::SubAgent { ref tool, ref definition_id } if tool == "agent.scribe" && definition_id == "id-1"));
    assert!(matches!(plans[4], ToolPlan::SubAgent { ref definition_id, .. } if definition_id == "id-2"));
    assert!(matches!(plans[5], ToolPlan::Skip));
    assert!(matches!(plans[6], ToolPlan::Skip));
    assert!(matches!(plans[7], ToolPlan::DiceRoll));
    // The deployment context's campaign_dir wins over the definition's.
    let ctx2 = vec![text_field("campaign_dir", "/ctx")];
    let plans = plan_executor(&vec!["campaign.list".to_string()], Some("/own"), &ctx2, &Vec::new());
    assert!(matches!(plans[0], ToolPlan::CampaignList(ref d) if d == "/ctx"));
    assert!(matches!(plan_tool("campaign.read", &Vec::new(), &Vec::new(), None), ToolPlan::Skip));
    assert!(matches!(plan_tool("rulebook.search", &Vec::new(), &Vec::new(), None), ToolPlan::Skip));
    assert_eq!(sub_agent_description("Scribe", "writes notes"), "Sub-agent 'Scribe': writes notes. Parameter: 'query' (string).");
    assert_eq!(sub_agent_prompt(None), "You are a helpful AI agent.");
    assert_eq!(sub_agent_prompt(Some("Be brief.")), "Be brief.");
}

#[test]
fn classification_requests() {
    assert_eq!(ingest_domain(None), "file-classification");
    assert_eq!(ingest_domain(Some("threats")), "threats");
    assert_eq!(ingest_intent("a.txt", "hello", None), "File: a.txt\n\nExcerpt:\nhello");
    let long = "x".repeat(700);
    assert_eq!(ingest_intent("b", &long, None), format!("File: b\n\nExcerpt:\n{}", "x".repeat(600)));
    assert_eq!(ingest_intent("b", "c", Some("classify it")), "classify it");
    assert_eq!(event_excerpt(&"é".repeat(400)).chars().count(), 300);
    assert_eq!(tool_event_output(Some("boom"), "{}"), "error: boom");
    assert_eq!(tool_event_output(None, "{\"a\":1}"), "{\"a\":1}");
}

#[test]
fn event_bus_topics() {
    assert_eq!(event_topic(EventKind::Started), Some("task"));
    assert_eq!(event_topic(EventKind::PipelineStep), Some("pipeline"));
    assert_eq!(event_topic(EventKind::FileWrite), Some("file"));
    assert_eq!(event_topic(EventKind::Failed), None);
    assert_eq!(campaign_write_event("campaign.write", Some("npcs.md"), Some("x")), Some(("npcs.md".to_string(), "x".to_string())));
    assert_eq!(campaign_write_event("campaign.write", None, None), Some(("unknown".to_string(), String::new())));
    assert_eq!(campaign_write_event("campaign.read", Some("a"), None), None);
}

#[test]
fn unknown_task_types_start_nothing() {
    let mut w = TaskWorker::new();
    let kinds: Vec<Option<&str>> = [
        (1u128, "{\"task_type\":\"fact_check\"}"),
        (2, "{\"task_type\":\"bake_bread\"}"),
        (1, "{\"task_type\":\"fact_check\"}"),
        (3, "not json"),
    ]
    .iter()
    .map(|(id, intent)| w.accept(*id, intent).and_then(responder))
    .collect();
    assert_eq!(kinds, vec![Some("fact-checker"), None, None, None]);
}
