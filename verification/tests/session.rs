use glorfindel::session::{
    condensed_summaries, dice_context_text, dice_inline_text, grounding_block, grounding_turn_files,
    latest_prose_entry, next_session_fits, next_session_name, next_turn_file, output_file_name_of,
    parse_roll_request, previous_session_of, request_totals_fit, roll_turn_dice, sorted_named_like,
    turn_numbers_fit,
};

fn names(v: &[&str]) -> Vec<String> {
    v.iter().map(|s| s.to_string()).collect()
}

#[test]
fn output_file_is_flat_md() {
    assert_eq!(output_file_name_of("turn_005.md"), "turn_005.md");
    assert_eq!(output_file_name_of("/notes/a b.md"), "notes_a_b.md");
    assert_eq!(output_file_name_of("report"), "report.md");
    assert_eq!(output_file_name_of("x_md_md"), "x.md");
    assert_eq!(output_file_name_of("//"), ".md");
}

#[test]
fn next_turn_file_counts_past_existing() {
    assert_eq!(next_turn_file(&names(&[])), "turn_001.md");
    assert_eq!(next_turn_file(&names(&["turn_001.md", "turn_007.md", "TURNS.md", "turn_x.md"])), "turn_008.md");
    assert_eq!(next_turn_file(&names(&["turn_0999.md"])), "turn_1000.md");
    assert!(turn_numbers_fit(&names(&["turn_001.md"])));
    assert!(!turn_numbers_fit(&names(&["turn_4294967295.md"])));
}

#[test]
fn previous_session_names() {
    assert_eq!(previous_session_of("session3"), Some("session2".to_string()));
    assert_eq!(previous_session_of("session1"), None);
    assert_eq!(previous_session_of("sessionsession12"), Some("session11".to_string()));
    assert_eq!(previous_session_of("prologue"), None);
}

#[test]
fn next_session_names() {
    assert_eq!(next_session_name("session5"), "session6");
    assert_eq!(next_session_name("prologue"), "prologue_next");
    assert_eq!(next_session_name("sessionX"), "sessionX_next");
    assert!(!next_session_fits("session4294967295"));
}

#[test]
fn grounding_picks_two_latest() {
    let n = names(&["turn_002.md", "TURNS.md", "turn_010.md", "notes.txt", "turn_003.md", "turn_011.md"]);
    assert_eq!(grounding_turn_files(&n, "turn_011.md"), names(&["turn_010.md", "turn_003.md"]));
    assert_eq!(grounding_turn_files(&names(&["a.md"]), "b.md"), names(&["a.md"]));
    assert!(grounding_turn_files(&names(&["TURNS.md"]), "b.md").is_empty());
    assert_eq!(latest_prose_entry(&n), Some("turn_011.md".to_string()));
    assert_eq!(latest_prose_entry(&names(&["TURNS.md"])), None);
}

#[test]
fn grounding_block_clips_files() {
    let files = vec![
        ("session1/turn_001.md".to_string(), "Hello".to_string()),
        ("world/npcs.md".to_string(), "z".repeat(1600)),
    ];
    assert_eq!(grounding_block(&files), format!("### session1/turn_001.md\nHello\n\n### world/npcs.md\n{}\n", "z".repeat(1500)));
}

#[test]
fn roll_requests_are_read() {
    let q = parse_roll_request("  ROLL|Kay|ENDURE|1d20+3|16|whether he holds  ").unwrap();
    assert_eq!((q.char_name.as_str(), q.ability.as_str(), q.notation.as_str(), q.dc, q.reason.as_str()),
        ("Kay", "ENDURE", "1d20+3", 16, "whether he holds"));
    let q = parse_roll_request("ROLL|Kay|ENDURE|1d20|DC|22").unwrap();
    assert_eq!(q.dc, 22);
    let q = parse_roll_request("ROLL|Kay|ENDURE|1d20|DC").unwrap();
    assert_eq!(q.dc, 14);
    assert!(parse_roll_request("ROLL|Kay|ENDURE|1d20").is_none());
    assert!(parse_roll_request("NO_ROLL").is_none());
}

#[test]
fn turn_dice_report_their_rolls() {
    let out = "ROLL|Kay|ENDURE|1d20+3|16|holds\nchatter\nROLL|Bors|BLADE|lots|12|x\nROLL|Bors|BLADE|2d6-1|10|cuts";
    assert!(request_totals_fit(out));
    let d = roll_turn_dice(out);
    assert_eq!(d.dice_lines, names(&["1d20+3", "2d6-1"]));
    assert_eq!(d.rolls[0].len(), 1);
    assert_eq!(d.rolls[1].len(), 2);
    assert_eq!(d.totals[0], d.rolls[0][0] as i32 + 3);
    let outcome = if d.totals[0] >= 16 { "SUCCESS" } else { "FAILURE" };
    assert_eq!(d.dice_results[0], format!("Kay ENDURE: 1d20+3 → [{}]+3 = **{}** vs DC 16 → **{}** (holds)", d.rolls[0][0], d.totals[0], outcome));
    assert!(!request_totals_fit("ROLL|A|B|1d20+2147483647|10|x"));
}

#[test]
fn dice_context_and_inline() {
    assert_eq!(dice_context_text(&names(&[]), "Kay — rests"), "No roll required. Focus the scene on: Kay — rests");
    assert_eq!(dice_context_text(&names(&["a", "b"]), "x"), "a\nb");
    assert_eq!(dice_inline_text(&names(&[])), "—");
    assert_eq!(dice_inline_text(&names(&["1d20", "2d6"])), "1d20, 2d6");
}

#[test]
fn session_summary_inputs() {
    let n = names(&["turn_002.md", "turn_001.md", "TURNS.md", "turnip.txt", "scene1", "session_summary.md"]);
    assert_eq!(sorted_named_like(&n, "turn", ".md"), names(&["turn_001.md", "turn_002.md"]));
    assert_eq!(sorted_named_like(&n, "scene", ""), names(&["scene1"]));
    let items = vec![("turn_001.md".to_string(), "They met.".to_string()), ("turn_002.md".to_string(), "They fought.".to_string())];
    assert_eq!(condensed_summaries(&items), "**turn_001.md**: They met.\n\n**turn_002.md**: They fought.");
}
