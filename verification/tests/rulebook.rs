use glorfindel::rulebook::chunk_text;

#[test]
fn paragraphs_become_chunks() {
    let c = chunk_text("First para.\n\n  \n\nSecond para.  ", "combat.md");
    assert_eq!(c, vec![
        ("First para.".to_string(), "combat.md".to_string(), 0),
        ("Second para.".to_string(), "combat.md".to_string(), 1),
    ]);
    assert!(chunk_text("", "x").is_empty());
}

#[test]
fn long_paragraphs_split_at_sentences() {
    let s1 = "a".repeat(400);
    let s2 = "b".repeat(300);
    let s3 = "c".repeat(100);
    let text = format!("{s1}. {s2}. {s3}");
    let c = chunk_text(&text, "r");
    assert_eq!(c.len(), 2);
    assert_eq!(c[0].0, s1);
    assert_eq!(c[1].0, format!("{s2}. {s3}"));
    assert_eq!(c[1].2, 1);
    let huge = "z".repeat(700);
    let c = chunk_text(&huge, "r");
    assert_eq!(c.len(), 2);
    assert_eq!(c[0].0, "z".repeat(600));
    assert_eq!(c[1].0, "z".repeat(100));
}

#[test]
fn sentences_longer_than_the_limit_are_cut() {
    let long = "x".repeat(1500);
    let text = format!("Intro.\n\n{long}");
    let chunks = chunk_text(&text, "PHB.txt");
    let lens: Vec<usize> = chunks.iter().map(|c| c.0.len()).collect();
    assert_eq!(lens, vec![6, 600, 600, 300]);
    assert!(chunks.iter().enumerate().all(|(i, c)| c.2 == i && c.1 == "PHB.txt" && c.0.len() <= 600));
    let wide = "é".repeat(400);
    let chunks = chunk_text(&wide, "s");
    let lens: Vec<usize> = chunks.iter().map(|c| c.0.len()).collect();
    assert_eq!(lens, vec![600, 200]);
}
