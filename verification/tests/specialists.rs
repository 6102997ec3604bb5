use glorfindel::specialists::{
    char_impact_system, char_impact_user, chat_reply_text, clean_impact_lines, clean_roll_line, dm_write_error,
    dm_write_user, fact_check_system, fact_check_user, rules_assess_system, rules_assess_user, summarize_system,
    summarize_user,
};

#[test]
fn rules_assessor_answer() {
    assert_eq!(clean_roll_line("Thinking...\nROLL|Kay|fear|disturbing|flees  \nNO_ROLL"), "ROLL|Kay|fear|disturbing|flees");
    assert_eq!(clean_roll_line("prose\n  NO_ROLL  "), "NO_ROLL");
    assert_eq!(clean_roll_line("nothing useful"), "NO_ROLL");
    assert_eq!(clean_roll_line(""), "NO_ROLL");
    // A ROLL line must start the line.
    assert_eq!(clean_roll_line("  ROLL|x|y|z|w"), "NO_ROLL");
}

#[test]
fn condition_tracker_answer() {
    assert_eq!(clean_impact_lines("ok\nCONDITION|Kay Ro|Shaken\nDREAD|Kay Ro|2\nmore"), "CONDITION|Kay Ro|Shaken\nDREAD|Kay Ro|2");
    assert_eq!(clean_impact_lines("no structure"), "NO_CHANGE");
    assert_eq!(clean_impact_lines(" NO_CHANGE "), " NO_CHANGE ");
    assert_eq!(clean_impact_lines("CDP|A|1\r\nx"), "CDP|A|1");
}

#[test]
fn specialist_prompts() {
    assert!(fact_check_system("Kay").contains("one paragraph on who Kay is, their stats"));
    assert_eq!(fact_check_user("Kay", "opens the door", "FILES"), "Acting character: Kay\nPlayer action: opens the door\n\nFILES");
    assert!(rules_assess_system().starts_with("You are a TTRPG rules assessor. Decide if a dice check is needed and output ONE line.\n\nOUTPUT FORMAT"));
    assert_eq!(
        rules_assess_user("Kay", "reads", "S", "R"),
        "CHARACTER: Kay\nACTION: reads\n\nCURRENT STATE:\nS\n\nRULES:\nR\n\nOutput now:"
    );
    let w = dm_write_user("F", "session1", "scene2", "G", "D", "Kay", "runs");
    assert!(w.starts_with("CAMPAIGN:\nF\n\nSCENE: session1/scene2\n\nGROUNDED FACTS (use ONLY these names and events):\nG\n\nDICE OUTCOMES"));
    assert!(w.contains("PLAYER ACTION: Kay — runs\n\nCRITICAL RULES:\n- The scene picks up"));
    assert!(w.ends_with("Just the scene."));
    assert_eq!(dm_write_error("timeout"), "*(DM response error: timeout)*");
    assert!(char_impact_system().starts_with("You are a TTRPG condition tracker. CDP and Dread are handled by the rules engine. Your only job"));
    assert!(char_impact_user("Kay", "FAILURE", "D", "P", "T", "C").starts_with("CHARACTER: Kay\nROLL_OUTCOME: FAILURE\n\nDICE OUTCOME:\nD"));
    assert!(summarize_system().starts_with("Write one sentence: who did what, and what was the outcome. Past tense."));
    let prose = "p".repeat(2500);
    assert_eq!(summarize_user("Kay Ro", &prose), format!("Character full name: Kay Ro\n\nScene:\n{}", "p".repeat(2000)));
}

#[test]
fn model_reply_text() {
    assert_eq!(chat_reply_text(Some("  hi \n")), "hi");
    assert_eq!(chat_reply_text(None), "(no response)");
}
