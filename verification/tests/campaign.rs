use glorfindel::campaign::{campaign_file_entry, campaign_listing, descend_into, listing_by_path};
use glorfindel::campaign::{campaign_root, labelled_note, local_campaign_path, note_entry, safe_name, safe_path, NoteError};

#[test]
fn names_and_paths() {
    assert!(safe_name("grail"));
    assert!(!safe_name(""));
    assert!(!safe_name("a..b"));
    assert!(!safe_name("a\\b"));
    assert!(safe_path("session1/scene 2/turn_001.md"));
    assert!(safe_path("séance/notes.md"));
    assert!(!safe_path("notes!.md"));
    assert!(!safe_path("../x"));
}

#[test]
fn campaign_roots() {
    assert_eq!(campaign_root("/data", "grail", true), "/data/local/campaigns/grail");
    assert_eq!(campaign_root("/data/", "grail", false), "/data/campaigns/grail");
    assert_eq!(local_campaign_path("d", "g"), "d/local/campaigns/g");
}

#[test]
fn notes() {
    assert_eq!(note_entry("10:30", "  Kay rests.  ").ok(), Some("**[10:30]** Kay rests.\n\n".to_string()));
    assert!(matches!(note_entry("10:30", "  \n "), Err(NoteError::Empty)));
    assert_eq!(labelled_note("10:30:00", "Think", "idea"), "**[10:30:00] Think** idea\n\n");
}

#[test]
fn campaign_list_is_sorted_and_unique() {
    let found = vec![
        ("zeta".to_string(), 3),
        ("alpha".to_string(), 1),
        ("zeta".to_string(), 9),
        ("beta".to_string(), 0),
    ];
    let l = campaign_listing(&found);
    let got: Vec<(&str, usize)> = l.iter().map(|c| (c.name.as_str(), c.file_count)).collect();
    assert_eq!(got, vec![("alpha", 1), ("beta", 0), ("zeta", 3)]);
    assert!(campaign_listing(&Vec::new()).is_empty());
}

#[test]
fn campaign_file_listing() {
    assert!(campaign_file_entry("", ".hidden", 3).is_none());
    let f = campaign_file_entry("", "npcs.md", 12).unwrap();
    assert_eq!((f.filename.as_str(), f.path.as_str(), f.subdir.clone(), f.size_bytes), ("npcs.md", "npcs.md", None, 12));
    let g = campaign_file_entry("session1\\scene2", "turn_001.md", 5).unwrap();
    assert_eq!(g.path, "session1/scene2/turn_001.md");
    assert_eq!(g.subdir, Some("session1/scene2".to_string()));
    assert!(descend_into("session1", 0));
    assert!(descend_into("scene1", 1));
    assert!(!descend_into("deeper", 2));
    assert!(!descend_into(".meta", 0));
    let files = vec![g, f];
    assert_eq!(listing_by_path(&files), vec![1, 0]);
}
