use glorfindel::prompts::{
    campaign_files_context, scene_opener_context, session_material, ArchiveScene, hook_material, meta_section, think_thinker_system, turn_meta_header, twist_system, HookScene,
};
use glorfindel::run_requests::request_for;
use glorfindel::runs::{
    eucatastrophe_run, grand_opener_run, player_turn_run, scene_opener_run, scene_run, session_turn_run, step,
    summary_run, think_run, Run, RunAction, SummaryKind,
};

fn s(v: &[&str]) -> Vec<String> {
    v.iter().map(|x| x.to_string()).collect()
}

/// Advances a run with the given replies, one per step.
fn advance(first: (Run, RunAction), replies: &[&str]) -> Run {
    let (mut run, _) = first;
    for r in replies {
        let (next, _) = step(run, Ok(r.to_string()));
        run = next;
    }
    run
}

#[test]
fn think_and_run_asks_in_its_own_words() {
    let inputs = s(&["shire", "storm the keep", "PARTY: Ann", "world.md, party.md"]);
    let first = think_run("shire", "storm the keep").unwrap();
    let q = request_for(&first.0, &inputs, None).unwrap();
    assert_eq!(q.system, think_thinker_system());
    assert!(q.system.starts_with("You are a TTRPG DM Thinker. Using ONLY the campaign facts provided, analyze the DM intent"));
    assert_eq!(q.user, "PARTY: Ann\n\nDM Intent: storm the keep");
    assert_eq!(q.max_tokens, Some(512));
    let run = advance(first, &["PLAN"]);
    let q = request_for(&run, &inputs, None).unwrap();
    assert_eq!(q.user, "Intent: storm the keep\n\nThinker:\nPLAN");
    let run = advance((run, RunAction::Finish), &["CRIT", "query", "[]", "\n\n=== RULES ===\nnote"]);
    let q = request_for(&run, &inputs, None).unwrap();
    assert_eq!(q.system, "List every dice roll needed for this turn as a JSON array of notation strings. E.g. [\"1d20\",\"2d6+2\"]. If no rolls needed output []. Only JSON, no prose.");
    assert_eq!(q.user, "Intent: storm the keep\nPlan: PLAN\n\n=== RULES ===\nnote");
    let run = advance((run, RunAction::Finish), &["[\"1d20\"]", "1d20 → [7] = **7**", "SUMMARY"]);
    let q = request_for(&run, &inputs, None).unwrap();
    assert_eq!(q.system, "You are the DM for the shire campaign. Write immersive prose true to the campaign's tone. Always save your output to a campaign file.");
    assert!(q.user.contains("=== PRE-COMPUTED CONTEXT ===\n\n\n=== RULES ===\nnote\n\n=== DICE RESULTS ===\n1d20 → [7] = **7**\n\nACTION SUMMARY:\nSUMMARY"));
    assert_eq!(q.max_tokens, None);
    let q = request_for(&run, &inputs, Some("House style.")).unwrap();
    assert_eq!(q.system, "House style.");
}

#[test]
fn session_and_player_turns_ask_their_specialists() {
    let inputs = s(&["shire", "open the door", "FACTS", "RULES"]);
    let first = session_turn_run("shire", "session1", None, &vec![]).unwrap();
    assert!(request_for(&first.0, &inputs, None).is_none());
    let run = advance(first, &["", "PLAN", "GROUND"]);
    let q = request_for(&run, &inputs, None).unwrap();
    assert_eq!(q.user, "Intent: open the door\n\nGROUND");
    assert!(q.system.starts_with("You are a campaign fact-checker. Read the files below. CHARACTERS:"));
    let run = advance((run, RunAction::Finish), &["CTX"]);
    let q = request_for(&run, &inputs, None).unwrap();
    assert_eq!(q.user, "Intent: open the door\nContext:\nCTX\n\nRules:\nRULES");
    let run = advance((run, RunAction::Finish), &["ROLL|Ann|MIGHT|1d20|14|x", "No roll"]);
    let q = request_for(&run, &inputs, None).unwrap();
    assert_eq!(q.system, "You are the DM for the shire campaign. Write immersive prose true to the campaign's tone and characters.");
    assert!(q.user.starts_with("CAMPAIGN:\nFACTS\n\nGROUNDED FACTS (from actual files — use ONLY these names and events):\nCTX\n\nDICE OUTCOMES"));

    let inputs = s(&["shire", "Ann", "sneak", "FACTS", "PARTY", "DICE"]);
    let first = player_turn_run("shire", "session1", "Ann", "sneak", None, &vec![]).unwrap();
    let run = advance(first, &["", "GROUND"]);
    let q = request_for(&run, &inputs, None).unwrap();
    assert_eq!(q.user, "Acting character: Ann\nPlayer action: sneak\n\nGROUND");
    assert!(q.system.contains("who {character} is"));
    let run = advance((run, RunAction::Finish), &["CTX"]);
    let q = request_for(&run, &inputs, None).unwrap();
    assert_eq!(q.system, "You are a TTRPG rules assessor. Output ONLY a ROLL| line or NO_ROLL. No prose.");
    assert!(q.user.starts_with("Character: Ann\nAction: sneak\n\nParty Stats:\nPARTY\n\nRules:\nDICE\n\nDoes this action need a check?"));
    assert!(q.user.contains("ROLL|Ann|STAT_NAME|1d20+N|22|what it determines"));
}

#[test]
fn openers_and_eucatastrophe_ask_in_order() {
    let inputs = s(&["shire", "session3", "session4"]);
    let first = grand_opener_run("shire", "session3").unwrap();
    let run = advance(first, &["", "HOOK"]);
    let q = request_for(&run, &inputs, None).unwrap();
    assert_eq!(q.system, twist_system());
    assert_eq!(q.user, "Campaign: shire\nPrevious session: session3\n\nHOOK");
    assert_eq!(q.max_tokens, Some(300));
    let run = advance((run, RunAction::Finish), &["TWIST"]);
    let q = request_for(&run, &inputs, None).unwrap();
    assert_eq!(q.system, "You are the DM for the shire campaign.");
    assert!(q.user.starts_with("You are opening session4 of the shire campaign. Write 3-4 paragraphs"));
    assert!(q.user.ends_with("Session record:\nHOOK\n\nTwist analysis:\nTWIST"));

    let five = s(&["session1", "session2", "session3", "session4", "session5"]);
    let first = eucatastrophe_run("shire", &five).unwrap();
    let run = advance(first, &["", "ARCHIVE", "NPCS", "ARCS", "WEIGHT: x\nMOMENT: the bells ring"]);
    let q = request_for(&run, &s(&["shire"]), None).unwrap();
    assert_eq!(q.user, "MOMENT: the bells ring\n\nCharacter names available: ARCS");
    assert_eq!(q.max_tokens, Some(150));

    let first = scene_opener_run("shire", "session2", Some("camp"), &vec![]).unwrap();
    let run = advance(first, &["", "CONTEXT"]);
    let q = request_for(&run, &s(&["shire", "session2", "camp"]), None).unwrap();
    assert_eq!(q.system, "You are a skilled GM for the shire campaign. Write focused, atmospheric scene openers that ground players in the current situation.");
    assert!(q.user.starts_with("You are the GM for the shire campaign. You are opening a new scene: session2/camp.\n\nContext from prior play:\nCONTEXT"));
    assert_eq!(q.max_tokens, Some(1200));
    assert!(request_for(&scene_run("turn_001.md").0, &vec![], None).is_none());
}

#[test]
fn summaries_condense_then_write_the_record() {
    let turns = s(&["turn_001.md", "turn_002.md"]);
    let inputs = s(&["shire", "session1", "", "first text", "second text"]);
    let first = summary_run(SummaryKind::Session, "session_summary.md", &turns).unwrap();
    let run = advance(first, &["", ""]);
    let q = request_for(&run, &inputs, None).unwrap();
    assert_eq!(q.user, "Scene: turn_001.md\n\nfirst text");
    assert_eq!(q.max_tokens, Some(256));
    let run = advance((run, RunAction::Finish), &["A did x.", "B did y."]);
    let q = request_for(&run, &inputs, None).unwrap();
    assert!(q.system.starts_with("You are writing a session record for a TTRPG campaign log."));
    assert_eq!(q.user, "Campaign: shire\nSession: session1\n\nScene summaries:\n**turn_001.md**: A did x.\n\n**turn_002.md**: B did y.");
    assert_eq!(q.max_tokens, Some(600));

    let logs = s(&["turn_001.log", "turn_002.log"]);
    let inputs = s(&["shire", "session1", "scene1", "## 📋 Summary\nAnn hid.\n", ""]);
    let first = summary_run(SummaryKind::Scene, "scene_summary.md", &logs).unwrap();
    let run = advance(first, &["", ""]);
    assert!(request_for(&run, &inputs, None).is_none());
    let run = advance((run, RunAction::Finish), &["Ann hid.", ""]);
    let q = request_for(&run, &inputs, None).unwrap();
    assert_eq!(q.user, "Campaign: shire\nScene: session1/scene1\n\nTurn facts:\n**turn_001.md**: Ann hid.");
}

#[test]
fn hook_material_and_meta_logs() {
    let scenes = vec![
        HookScene { name: "scene1".to_string(), summary: Some("x".repeat(700)), last_log: Some("## 📋 Summary\n  Ann fled.\n".to_string()) },
        HookScene { name: "scene2".to_string(), summary: None, last_log: Some("no summary".to_string()) },
    ];
    let h = hook_material("session3", "The recap.", &scenes, None);
    assert_eq!(
        h,
        format!("### session3/session_summary.md\nThe recap.\n\n### session3/scene1/scene_summary.md\n{}\n\n### Last turn (scene1)\n  Ann fled.", "x".repeat(600))
    );
    assert_eq!(hook_material("session3", "", &vec![], Some(("turn_009.md", &"y".repeat(1300)))), format!("### session3/turn_009.md (fallback)\n{}", "y".repeat(1200)));
    assert_eq!(hook_material("session3", "", &vec![], None), "");
    assert_eq!(meta_section("🧠 Thinker", "PLAN"), "\n## 🧠 Thinker\nPLAN\n");
    assert_eq!(
        turn_meta_header("open the door", "shire", "session1", "turn_002.md", "2024-01-01 00:00:00 UTC"),
        "# Turn: open the door\n**Campaign:** shire  **Session:** session1  **File:** turn_002.md  **Time:** 2024-01-01 00:00:00 UTC\n"
    );
}

#[test]
fn scene_opener_context_and_session_material() {
    let world = vec![("world.md".to_string(), "w".repeat(1600))];
    let prior = vec![("scene1".to_string(), "They camped.".to_string())];
    let c = scene_opener_context(Some("PARTY"), &world, Some(("session1", "Long ago.")), &prior, "session2", None);
    assert_eq!(
        c,
        format!(
            "### world/party.md\nPARTY\n\n### world/world.md\n{}\n\n### Previous session: session1/session_summary.md\nLong ago.\n\n### Prior scene: scene1/scene_summary.md\nThey camped.\n",
            "w".repeat(1500)
        )
    );
    let scenes = vec![ArchiveScene {
        name: "scene1".to_string(),
        logs: vec![
            ("turn_001.log".to_string(), "## 📋 Summary\n Ann hid. \n".to_string()),
            ("turn_002.log".to_string(), "nothing".to_string()),
        ],
    }];
    assert_eq!(session_material(Some("Recap."), &scenes, None).unwrap(), "## Session Summary\nRecap.\n\n## scene1\n- turn_001.log: Ann hid.");
    assert_eq!(session_material(None, &vec![], Some("TURNS")).unwrap(), "TURNS");
    assert!(session_material(None, &vec![], None).is_none());
}

#[test]
fn think_reads_picked_files_under_one_heading() {
    assert_eq!(campaign_files_context(&Vec::new()), "");
    let files = vec![
        ("world/party.md".to_string(), "Mira, a cleric.".to_string()),
        ("world/npcs.md".to_string(), "x".repeat(2005)),
    ];
    let expected = format!(
        "\n\n=== CAMPAIGN FILES ===\n### world/party.md\nMira, a cleric.\n\n### world/npcs.md\n{}\n\n",
        "x".repeat(2000)
    );
    assert_eq!(campaign_files_context(&files), expected);
}
