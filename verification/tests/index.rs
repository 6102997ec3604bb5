use glorfindel::index::{
    breadcrumb_text, extract_logged_summary, first_text_line, meta_log_name, summary_short, turn_index_update,
    turn_number, turn_row_text, upsert_scene_index, upsert_session_index,
};

#[test]
fn meta_log_names() {
    assert_eq!(meta_log_name("turn_003.md"), "turn_003.log");
    assert_eq!(meta_log_name("a.md.md"), "a.log.log");
}

#[test]
fn turn_index_starts_with_header() {
    let u = turn_index_update("", "Grail", "session1", "10:00:00", "turn_001.md", "1d20+3", "Kay held.");
    assert_eq!(u.turn_num, 1);
    assert!(u.overwrite);
    assert_eq!(
        u.text,
        "# Grail / session1 — Turn Index\n\n| # | Time (UTC) | Data plane | Control plane | Dice | Summary |\n|---|-----------|-----------|--------------|------|---------|\n| 1 | 10:00:00 | [turn_001.md](turn_001.md) | [.meta/turn_001.log](.meta/turn_001.log) | 1d20+3 | Kay held. |\n"
    );
}

#[test]
fn appended_row_counts_one_more_turn() {
    let first = turn_index_update("", "Grail", "session1", "10:00:00", "turn_001.md", "—", "One.");
    assert_eq!(turn_number(&first.text), 2);
    let second = turn_index_update(&first.text, "Grail", "session1", "10:05:00", "turn_002.md", "—", "Two.");
    assert_eq!(second.turn_num, 2);
    assert!(!second.overwrite);
    let both = format!("{}{}", first.text, second.text);
    assert_eq!(turn_number(&both), 3);
    assert_eq!(turn_row_text(7, "t", "x.md", "d", "s"), "| 7 | t | [x.md](x.md) | [.meta/x.log](.meta/x.log) | d | s |\n");
}

#[test]
fn breadcrumb_names_the_log() {
    assert_eq!(
        breadcrumb_text(2, "session1", "turn_002.md", "10:00"),
        "<!-- Turn 2 | session1/turn_002.md | 10:00 UTC | stats: .meta/turn_002.log -->\n"
    );
}

#[test]
fn summaries_from_logs() {
    assert_eq!(summary_short("First line\nsecond"), "First line");
    assert_eq!(summary_short(""), "");
    assert_eq!(summary_short(&"y".repeat(130)), "y".repeat(120));
    let log = "# Turn\n\n## 📋 Summary\n\n   Kay held the line.  \nmore";
    assert_eq!(extract_logged_summary(log), Some("Kay held the line.".to_string()));
    assert_eq!(extract_logged_summary("no marker here"), None);
    assert_eq!(first_text_line("\n  \nHello\nWorld"), "Hello");
    assert_eq!(first_text_line(" \n "), "");
}

#[test]
fn scene_index_upsert_replaces_row() {
    let a = upsert_scene_index("", "Grail", "session1", "scene1", "T1", 3, "scene_summary.md", "Opening.");
    assert_eq!(
        a,
        "# Grail / session1 — Scene Index\n\n| # | Scene | Time (UTC) | Turns | Summary |\n|---|-------|-----------|-------|---------|\n| 1 | scene1 | T1 | 3 | [scene_summary.md](scene1/scene_summary.md) — Opening. |\n"
    );
    let b = upsert_scene_index(&a, "Grail", "session1", "scene2", "T2", 1, "scene_summary.md", "Next.");
    assert!(b.ends_with("| 2 | scene2 | T2 | 1 | [scene_summary.md](scene2/scene_summary.md) — Next. |\n"));
    let c = upsert_scene_index(&b, "Grail", "session1", "scene1", "T3", 5, "scene_summary.md", "Redone.");
    assert_eq!(c.matches("scene1 |").count(), 1);
    assert!(c.contains("| 1 | scene1 | T3 | 5 | [scene_summary.md](scene1/scene_summary.md) — Redone. |"));
    assert!(c.contains("| 2 | scene2 |"));
}

#[test]
fn session_index_upsert() {
    let a = upsert_session_index("", "Grail", "session1", "2024-01-01 10:00:00 UTC", 2, "session_summary.md", "They met.");
    assert_eq!(
        a,
        "# Grail — Session Index\n\n| # | Session | Time (UTC) | Scenes | Summary |\n|---|---------|-----------|--------|---------|\n| 1 | session1 | 2024-01-01 10:00:00 UTC | 2 | [session_summary.md](session1/session_summary.md) — They met. |\n"
    );
    let b = upsert_session_index(&a, "Grail", "session1", "later", 3, "session_summary.md", "Again.");
    assert_eq!(b.matches("| session1 |").count(), 1);
    assert!(b.contains("| 1 | session1 | later | 3 |"));
}
