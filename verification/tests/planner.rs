use glorfindel::planner::{
    clean_query, dice_notations, dice_roll_line, dice_summary_text, dm_definition, euca_session_fits,
    euca_session_name, eucatastrophe_ready, eucatastrophe_shortfall, json_body_text, moment_line, next_scene_fits,
    next_scene_name, rule_consultant, scene_definition, selected_files, selection_from, session_archive_text,
    world_facts_text, DefinitionInfo,
};

fn strings(v: &[&str]) -> Vec<String> {
    v.iter().map(|s| s.to_string()).collect()
}

fn def(name: &str, dir: Option<&str>, ctx: bool) -> DefinitionInfo {
    DefinitionInfo { name: name.to_string(), campaign_dir: dir.map(String::from), has_deployed_context: ctx }
}

#[test]
fn json_lists_from_replies() {
    assert_eq!(json_body_text("  ```json\n[\"a\"]\n```  "), "[\"a\"]");
    let available = strings(&["notes.md", "world/npcs.md", "world/setting.md", "party.md"]);
    assert_eq!(selected_files("```json\n[\"notes.md\"]\n```", &available), vec!["notes.md"]);
    assert_eq!(selected_files("I think world.md", &available), vec!["world/npcs.md", "world/setting.md"]);
    assert_eq!(selection_from(None, &strings(&["a.md", "party.md"])), vec!["party.md"]);
    assert_eq!(selection_from(Some(strings(&["x"])), &Vec::new()), vec!["x"]);
    assert_eq!(dice_notations("[\"1d20\",\"2d6+2\"]"), vec!["1d20", "2d6+2"]);
    assert!(dice_notations("no rolls").is_empty());
    assert!(dice_notations("[1, 2]").is_empty());
}

#[test]
fn dice_lines() {
    assert_eq!(dice_roll_line("2d6+2", &vec![3, 5], 2, 10), "2d6+2 → [3, 5]+2 = **10**");
    assert_eq!(dice_roll_line("1d20-1", &vec![1], -1, 0), "1d20-1 → [1]-1 = **0**");
    assert_eq!(dice_roll_line("1d4", &vec![4], 0, 4), "1d4 → [4] = **4**");
    assert_eq!(dice_summary_text(&Vec::new()), "No dice rolled.");
    assert_eq!(dice_summary_text(&strings(&["a", "b"])), "a\nb");
}

#[test]
fn queries_lose_their_quotes() {
    assert_eq!(clean_query("  \"grapple rules\"\n"), "grapple rules");
    assert_eq!(clean_query("\"\"x\""), "x");
    assert_eq!(clean_query("plain"), "plain");
}

#[test]
fn definitions_are_chosen() {
    let defs = vec![
        def("Rule Consultant", Some("/data/campaigns/other"), true),
        def("Rule Consultant (grail)", Some("/data/campaigns/grail"), false),
        def("Rule Consultant 2", Some("/data/campaigns/grail"), true),
    ];
    assert_eq!(rule_consultant(&defs, "grail"), Some(2));
    assert_eq!(rule_consultant(&defs, "nowhere"), None);
    assert_eq!(dm_definition(&strings(&["Scribe", "The DUNGEON Keeper", "My DM"])), Some(1));
    assert_eq!(dm_definition(&strings(&["Scribe", "Oracle"])), Some(0));
    assert_eq!(dm_definition(&Vec::new()), None);
    let defs = vec![def("Scribe", None, false), def("Admin", None, false), def("Helper", Some("grail"), false)];
    assert_eq!(scene_definition(&defs, "/data/campaigns/grail", "grail"), Some(2));
    let defs = vec![def("Scribe", None, false), def("Admin", None, false)];
    assert_eq!(scene_definition(&defs, "/x", "y"), Some(1));
    assert_eq!(scene_definition(&Vec::new(), "/x", "y"), None);
}

#[test]
fn sessions_and_scenes() {
    assert!(!eucatastrophe_ready(4));
    assert!(eucatastrophe_ready(5));
    assert_eq!(eucatastrophe_shortfall(3), "Eucatastrophe requires 5+ completed sessions — found 3");
    assert!(euca_session_fits("session7"));
    assert_eq!(euca_session_name("session7"), "session8");
    assert_eq!(euca_session_name("finale"), "finale_euca");
    assert!(!euca_session_fits("session4294967295"));
    let dirs = strings(&["scene2", "scene10", "notes", "sceneX"]);
    assert!(next_scene_fits(&dirs));
    assert_eq!(next_scene_name(&dirs), "scene11");
    assert_eq!(next_scene_name(&Vec::new()), "scene1");
    let m = vec![("session1".to_string(), "a".repeat(1300)), ("session2".to_string(), "b".to_string())];
    assert_eq!(session_archive_text(&m), format!("=== session1 ===\n{}\n\n=== session2 ===\nb", "a".repeat(1200)));
}

#[test]
fn grace_moments() {
    assert_eq!(moment_line("WEIGHT: loss\nSEED: a cup\nMOMENT: Ana hands over the lamp."), "Ana hands over the lamp.");
    assert_eq!(moment_line("- moment:\n\n  - The door opens.\n"), "The door opens.");
    assert_eq!(moment_line("nothing here"), "an unexpected arrival");
    assert_eq!(moment_line("MOMENT:"), "an unexpected arrival");
}

#[test]
fn world_facts() {
    assert_eq!(world_facts_text("Grail", None, None, None), "CAMPAIGN: Grail.\n\n(No world files found. Use only information from the DM intent.)");
    assert_eq!(world_facts_text("Grail", Some("Ana"), None, Some("Bo")), "CAMPAIGN: Grail.\n\n--- PARTY ---\nAna\n\n--- NPCS ---\nBo");
}
