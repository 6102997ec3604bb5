use glorfindel::assistant::{seed_context, seed_entry};
use glorfindel::assistant::{model_available, model_list};
use glorfindel::assistant::{
    action_from_fields, assistant_step, campaign_context, dm_capability, dm_context_files, dm_system_prompt,
    fenced_block, media_capability, media_system_prompt, reply_action, result_field, seed_entry_len, seed_has_room,
    seed_order, seed_take, tool_request, tool_result_block, tool_result_line, AgentAction, AssistantStep, JsonField,
    LoopDecision, TaskLoop,
};
use glorfindel::schemas::{AgentType, ModelBackend};

fn field(key: &str, text: Option<&str>, json: &str) -> JsonField {
    JsonField { key: key.to_string(), text: text.map(String::from), json: json.to_string() }
}

#[test]
fn fenced_blocks_are_trimmed() {
    assert_eq!(fenced_block("x ```tool\n {\"a\":1} \n``` y", "```tool"), Some("{\"a\":1}".to_string()));
    assert_eq!(fenced_block("```tool no end", "```tool"), None);
    assert_eq!(fenced_block("plain", "```result"), None);
}

#[test]
fn assistant_reply_with_result() {
    let r = assistant_step("Done.\n```result\n{\"result\": \"All set\"}\n```");
    assert!(matches!(r, AssistantStep::Finish(ref j) if j == "\"All set\""));
}

#[test]
fn assistant_reply_with_tool_call() {
    let reply = "```tool\n{\"tool\": \"campaign.read\", \"parameters\": {\"filename\": \"npcs.md\"}, \"justification\": \"check\"}\n```";
    match assistant_step(reply) {
        AssistantStep::Call(q) => {
            assert_eq!(q.tool, "campaign.read");
            assert_eq!(q.parameters, "{\"filename\":\"npcs.md\"}");
            assert_eq!(q.justification, Some("check".to_string()));
        }
        _ => panic!("expected a tool call"),
    }
    // A result block without a `result` field does not end the task.
    let reply = "```result\n{\"answer\": 1}\n```\n```tool\n{\"tool\": \"dice.roll\", \"parameters\": {}}\n```";
    match assistant_step(reply) {
        AssistantStep::Call(q) => {
            assert_eq!(q.tool, "dice.roll");
            assert_eq!(q.parameters, "{}");
            assert_eq!(q.justification, None);
        }
        _ => panic!("expected a tool call"),
    }
}

#[test]
fn assistant_reply_freeform() {
    assert!(matches!(assistant_step("Just prose."), AssistantStep::Answer));
    assert!(matches!(assistant_step("```tool\nnot json\n```"), AssistantStep::Answer));
    assert!(matches!(assistant_step("```tool\n{\"tool\": 3, \"parameters\": {}}\n```"), AssistantStep::Answer));
}

#[test]
fn fields_to_requests() {
    let fs = vec![
        field("parameters", None, "{\"q\":1}"),
        field("tool", Some("graph.query"), "\"graph.query\""),
        field("justification", None, "7"),
    ];
    let q = tool_request(&fs).unwrap();
    assert_eq!(q.tool, "graph.query");
    assert_eq!(q.parameters, "{\"q\":1}");
    assert_eq!(q.justification, None);
    assert!(tool_request(&vec![field("tool", Some("x"), "\"x\"")]).is_none());
    assert_eq!(result_field(&vec![field("result", Some("ok"), "\"ok\"")]), Some("\"ok\"".to_string()));
    assert_eq!(result_field(&fs), None);
}

#[test]
fn ollama_actions() {
    match reply_action("```json\n{\"action\":\"result\",\"result\":\"ok\"}\n```") {
        Some(AgentAction::Result(j)) => assert_eq!(j, "\"ok\""),
        _ => panic!("expected a result"),
    }
    match reply_action("{\"action\":\"result\"}") {
        Some(AgentAction::Result(j)) => assert_eq!(j, "null"),
        _ => panic!("expected a result"),
    }
    let reply = "Sure! {\"action\":\"campaign.write\",\"filename\":\"a.md\",\"content\":\"x\",\"justification\":\"j\"} thanks";
    match reply_action(reply) {
        Some(AgentAction::ToolCall { tool, parameters, justification }) => {
            assert_eq!(tool, "campaign.write");
            let keys: Vec<&str> = parameters.iter().map(|f| f.key.as_str()).collect();
            assert_eq!(keys, vec!["content", "filename"]);
            assert_eq!(parameters[1].text, Some("a.md".to_string()));
            assert_eq!(justification, Some("j".to_string()));
        }
        _ => panic!("expected a tool call"),
    }
    assert!(reply_action("42").is_none());
    assert!(reply_action("no json at all").is_none());
    assert!(reply_action("{\"tool\":\"x\"}").is_none());
    let fs = vec![field("action", Some("dice.roll"), "\"dice.roll\""), field("notation", Some("d20"), "\"d20\"")];
    match action_from_fields(&fs) {
        Some(AgentAction::ToolCall { tool, parameters, justification }) => {
            assert_eq!(tool, "dice.roll");
            assert_eq!(parameters.len(), 1);
            assert_eq!(parameters[0].key, "notation");
            assert_eq!(justification, None);
        }
        _ => panic!("expected a tool call"),
    }
}

fn write_call(file: &str) -> Option<AgentAction> {
    Some(AgentAction::ToolCall {
        tool: "campaign.write".to_string(),
        parameters: vec![field("filename", Some(file), &format!("\"{file}\""))],
        justification: None,
    })
}

#[test]
fn task_loop_stops_on_rewrite() {
    let mut l = TaskLoop::new(None);
    assert_eq!(l.max_iterations, 20);
    assert!(matches!(l.on_reply(write_call("a.md")), LoopDecision::Execute { .. }));
    assert_eq!(l.written, vec!["a.md".to_string()]);
    assert!(matches!(l.on_reply(write_call("b.md")), LoopDecision::Execute { .. }));
    match l.on_reply(write_call("a.md")) {
        LoopDecision::Stop(files) => assert_eq!(files, vec!["a.md".to_string(), "b.md".to_string()]),
        _ => panic!("expected a stop"),
    }
    assert_eq!(l.iteration, 3);
    assert!(matches!(l.on_reply(None), LoopDecision::Respond));
    assert!(matches!(l.on_reply(Some(AgentAction::Result("1".to_string()))), LoopDecision::Finish(ref j) if j == "1"));
}

#[test]
fn task_loop_budget() {
    let mut l = TaskLoop::new(Some(2));
    assert!(l.has_turn());
    l.on_reply(None);
    assert!(l.has_turn());
    l.on_reply(None);
    assert!(!l.has_turn());
}

#[test]
fn assistant_prompts() {
    let tools = vec!["campaign.read".to_string(), "rulebook.search".to_string()];
    let p = dm_system_prompt("=== world.md ===\nAn island\n\n", &tools);
    assert!(p.starts_with("You are an expert TTRPG Dungeon Master assistant"));
    assert!(p.contains("Current campaign context (preloaded):\n=== world.md ===\nAn island\n\n\n\nAvailable tools:\n- campaign.read\n- rulebook.search\n\nTo use a tool"));
    assert!(p.ends_with("Be a great co-DM."));
    let m = media_system_prompt("Den", &tools);
    assert!(m.starts_with("You are a helpful media server assistant for a Jellyfin instance called \"Den\".\n\n"));
    assert!(m.ends_with("Use tools to look up real data before answering."));
}

#[test]
fn assistant_manifests() {
    let c = dm_capability("dm-1", "mistral", "http://h", &vec!["dice.roll".to_string()]);
    assert_eq!(c.name, "DM Assistant (mistral)");
    assert_eq!(c.agent_type, AgentType::Specialist);
    assert_eq!(c.domains, vec!["dm-assistant".to_string(), "ttrpg".to_string()]);
    assert!(matches!(c.model_backend, ModelBackend::Ollama { ref model, ref host } if model == "mistral" && host == "http://h"));
    assert_eq!(c.resource_requirements.min_vram_mb, Some(4096));
    let m = media_capability("m", "llama", "h", &Vec::new());
    assert_eq!(m.name, "Media Server Assistant (llama)");
    assert_eq!(m.domains, vec!["media".to_string(), "jellyfin".to_string()]);
}

#[test]
fn dm_campaign_context() {
    assert_eq!(dm_context_files(), vec!["world.md", "players.md", "npcs.md", "locations.md"]);
    let files = vec![("world.md".to_string(), "A world".to_string()), ("npcs.md".to_string(), "  \n".to_string())];
    assert_eq!(campaign_context(&files), "=== world.md ===\nA world\n\n");
    assert_eq!(campaign_context(&Vec::new()), "No campaign files found yet. Use campaign.write to start building them.");
}

#[test]
fn seeded_context_order_and_budget() {
    let files: Vec<String> = ["s1.md", "session_notes.md", "b.md", "ending.md"].iter().map(|s| s.to_string()).collect();
    assert_eq!(seed_order(&files), vec!["session_notes.md", "ending.md", "s1.md", "b.md"]);
    assert!(seed_has_room(1999));
    assert!(!seed_has_room(2000));
    assert_eq!(seed_take(1990, 50), 10);
    assert_eq!(seed_take(0, 50), 50);
    assert_eq!(seed_entry_len(5, 10), 21);
}

#[test]
fn tool_result_messages() {
    assert_eq!(tool_result_line("dice.roll", "{\"total\":7}"), "Tool result for dice.roll: {\"total\":7}");
    assert_eq!(tool_result_block("dice.roll", "{}"), "Tool result for dice.roll:\n{}");
}

#[test]
fn models_from_a_list() {
    assert_eq!(model_list("mistral, llama3 ,, nomic-embed-text"), vec!["mistral", "llama3", "nomic-embed-text"]);
    assert!(model_list(" , ").is_empty());
    assert!(model_list("").is_empty());
}

#[test]
fn models_by_prefix() {
    let have = vec!["mistral:latest".to_string(), "nomic-embed-text:latest".to_string()];
    assert!(model_available(&have, "mistral"));
    assert!(!model_available(&have, "llama3"));
    assert!(!model_available(&Vec::new(), "mistral"));
}

#[test]
fn assistant_agents_prompt_and_announce() {
    let mut ex = glorfindel::tools::ToolExecutor::new();
    ex.register(glorfindel::tools::ToolSpec { name: "campaign.read".to_string(), permissions: vec![] });
    let dm = glorfindel::assistant::DmAssistantAgent::new("dm1", "mistral", "http://h", ex, "campaigns/shire");
    assert_eq!(dm.campaign_dir, "campaigns/shire");
    let p = dm.system_prompt("=== world.md ===\nMiddle-earth\n\n");
    assert!(p.starts_with("You are an expert TTRPG Dungeon Master assistant"));
    assert!(p.contains("Current campaign context (preloaded):\n=== world.md ===\nMiddle-earth"));
    assert!(p.contains("Available tools:\n- campaign.read\n"));
    let cap = dm.capability();
    assert_eq!(cap.name, "DM Assistant (mistral)");
    assert_eq!(cap.domains, vec!["dm-assistant".to_string(), "ttrpg".to_string()]);
    assert_eq!(cap.tools_available, vec!["campaign.read".to_string()]);

    let mut ex2 = glorfindel::tools::ToolExecutor::new();
    ex2.register(glorfindel::tools::ToolSpec { name: "media.search".to_string(), permissions: vec![] });
    let media = glorfindel::assistant::MediaServerAgent::new("m1", "llama3", "http://h", ex2, "Den");
    assert!(media.system_prompt().starts_with("You are a helpful media server assistant for a Jellyfin instance called \"Den\"."));
    assert!(media.system_prompt().contains("- media.search"));
    let cap = media.capability();
    assert_eq!(cap.name, "Media Server Assistant (llama3)");
    assert_eq!(cap.domains, vec!["media".to_string(), "jellyfin".to_string()]);
}

#[test]
fn seeded_context_lists_its_files_under_a_heading() {
    assert_eq!(seed_entry("session1/turn_001.md", "Ann hid."), "### session1/turn_001.md\nAnn hid.\n");
    let entries = vec![seed_entry("a.md", "A"), seed_entry("b.md", "B")];
    assert_eq!(seed_context(&entries), "## Campaign Context (recent session files)\n\n### a.md\nA\n\n### b.md\nB\n");
    assert_eq!(seed_context(&vec![]), "## Campaign Context (recent session files)\n");
}
