use glorfindel::pipeline::{
    build_campaign_facts, char_impact_params, dm_summarize_params, dm_write_params, fact_check_params, infer_prev_turns, pad3_text,
    rules_assess_params, trunc, turn_file_text,
};

#[test]
fn trunc_keeps_short_text() {
    assert_eq!(trunc("hello", 5), "hello");
    assert_eq!(trunc("hello", 10), "hello");
}

#[test]
fn trunc_cuts_by_characters_when_bytes_exceed() {
    assert_eq!(trunc("hello world", 5), "hello");
    // four characters, eight bytes: over a limit of 5 bytes, cut to 5 characters
    assert_eq!(trunc("éééé", 5), "éééé");
    assert_eq!(trunc("éééééé", 5), "ééééé");
    let t = trunc("abcdefgh", 3);
    assert!("abcdefgh".starts_with(&t) && t.chars().count() <= 3);
}

#[test]
fn turn_file_names() {
    assert_eq!(pad3_text(7), "007");
    assert_eq!(pad3_text(42), "042");
    assert_eq!(pad3_text(1234), "1234");
    assert_eq!(turn_file_text(3), "turn_003.md");
}

#[test]
fn previous_turns_most_recent_first() {
    assert_eq!(infer_prev_turns("turn_004.md", 2), vec!["turn_003.md".to_string(), "turn_002.md".to_string()]);
    assert_eq!(infer_prev_turns("turn_002.md", 5), vec!["turn_001.md".to_string()]);
    assert!(infer_prev_turns("turn_001.md", 3).is_empty());
    assert!(infer_prev_turns("opening.md", 3).is_empty());
}

#[test]
fn campaign_facts_sections() {
    assert_eq!(build_campaign_facts("Grail", "", "", ""), "CAMPAIGN: Grail.");
    assert_eq!(
        build_campaign_facts("Grail", "Kay, Bors", "", "The Hermit"),
        "CAMPAIGN: Grail.\n\n--- PARTY ---\nKay, Bors\n\n--- NPCS ---\nThe Hermit"
    );
    let long = "x".repeat(700);
    let facts = build_campaign_facts("G", "", &long, "");
    assert_eq!(facts, format!("CAMPAIGN: G.\n\n--- SETTING ---\n{}", "x".repeat(600)));
}

#[test]
fn scene_subtask_payloads_are_clipped() {
    let facts = "f".repeat(1600);
    let w = dm_write_params(
        "http://h", "m", "Ravenloft", "session1", "scene01", "Mira", "opens the door", &facts, "ok", &"d".repeat(600), None,
    );
    assert_eq!(w.task_type, "dm_write");
    assert_eq!(w.campaign_facts, "f".repeat(1500));
    assert_eq!(w.critic_context, "ok");
    assert_eq!(w.dice_context, "d".repeat(500));
    assert_eq!(
        w.system_prompt,
        "You are the DM for the Ravenloft campaign. Respond to player actions with immersive prose true to the campaign's tone."
    );
    let own = "s".repeat(900);
    let w2 = dm_write_params("h", "m", "R", "s1", "sc", "M", "a", "", "", "", Some(&own));
    assert_eq!(w2.system_prompt, "s".repeat(800));

    let f = fact_check_params("h", "m", "Mira", "a", &"g".repeat(3001));
    assert_eq!((f.task_type.as_str(), f.grounding_block.len()), ("fact_check", 3000));
    // 1200 two-byte characters: over 2000 bytes, under 2000 characters.
    let accented = "é".repeat(1200);
    let r = rules_assess_params("h", "m", "Mira", "a", "| table |", &accented);
    assert_eq!(r.rules_context, "é".repeat(1200));
    assert_eq!(r.party_state, "| table |");
    let c = char_impact_params("h", "m", "Mira", "SUCCESS", &"x".repeat(401), &"p".repeat(1300), "t", &"c".repeat(801));
    assert_eq!((c.dice_context.len(), c.dm_prose.len(), c.cosmic_rules.len()), (400, 1200, 800));
    let s = dm_summarize_params("h", "m", "Mira", &"p".repeat(2001));
    assert_eq!((s.task_type.as_str(), s.prose.len()), ("dm_summarize", 2000));
}
