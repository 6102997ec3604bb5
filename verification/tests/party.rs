use glorfindel::party::{apply_effects, apply_impact_to_state, render_party_state_md, CharState, PartyState};

fn state(dread: u8, cdp: u8, conds: &[&str]) -> CharState {
    CharState { dread, cdp, conditions: conds.iter().map(|c| c.to_string()).collect() }
}

#[test]
fn effects_apply_in_order() {
    let mut s = state(0, 0, &[]);
    let effects: Vec<String> = vec!["cdp+2", "dread+1", "condition:Shaken", "condition:Shaken", "bogus"]
        .into_iter().map(String::from).collect();
    apply_effects(&mut s, &effects);
    assert_eq!(s.cdp, 2);
    assert_eq!(s.dread, 1);
    assert_eq!(s.conditions, vec!["Shaken".to_string()]);
}

#[test]
fn effects_saturate_and_clear() {
    let mut s = state(250, 254, &["Haunted", "Shaken"]);
    let effects: Vec<String> = vec!["dread+10", "cdp+9", "condition:clear", "cdp+300"]
        .into_iter().map(String::from).collect();
    apply_effects(&mut s, &effects);
    assert_eq!(s.dread, 255);
    assert_eq!(s.cdp, 255);
    assert!(s.conditions.is_empty());
}

#[test]
fn effects_never_lower_dread() {
    let mut s = state(7, 3, &["A"]);
    let effects: Vec<String> = vec!["condition:B", "condition:clear", "dread+0"].into_iter().map(String::from).collect();
    apply_effects(&mut s, &effects);
    assert!(s.dread >= 7 && s.cdp >= 3);
}

#[test]
fn stored_state_is_read_back() {
    let mut p = PartyState::new();
    p.insert("Kay", state(1, 2, &["Shaken"]));
    p.insert("Gareth", state(3, 0, &[]));
    p.insert("Kay", state(4, 4, &[]));
    let k = p.get("Kay").unwrap();
    assert_eq!((k.dread, k.cdp), (4, 4));
    assert_eq!(p.get("Gareth").unwrap().dread, 3);
    assert!(p.get("Nobody").is_none());
    let names: Vec<&str> = p.entries().iter().map(|e| e.name.as_str()).collect();
    assert_eq!(names, vec!["Gareth", "Kay"]);
}

#[test]
fn impact_lines_update_party() {
    let mut p = PartyState::new();
    apply_impact_to_state(&mut p, "DREAD|Kay|3\nCONDITION|Kay|Haunted\nNO_CHANGE\n\nCDP | Gareth | 2\nbad line\nCDP|Gareth|x");
    let k = p.get("Kay").unwrap();
    assert_eq!(k.dread, 3);
    assert_eq!(k.conditions, vec!["Haunted".to_string()]);
    assert_eq!(p.get("Gareth").unwrap().cdp, 2);
    apply_impact_to_state(&mut p, "CONDITION|Kay|—");
    assert!(p.get("Kay").unwrap().conditions.is_empty());
}

#[test]
fn party_table_rendering() {
    let mut p = PartyState::new();
    p.insert("Kay", state(1, 2, &["Shaken", "Haunted"]));
    p.insert("Bors", state(0, 0, &[]));
    assert_eq!(
        render_party_state_md(&p),
        "| Character | Dread | CDP | Conditions |\n|-----------|-------|-----|------------|\n| Bors | 0 | 0 | — |\n| Kay | 1 | 2 | Shaken, Haunted |"
    );
}

#[test]
fn conditions_keep_the_order_they_were_named_in() {
    let mut s = state(0, 0, &["Haunted"]);
    let effects: Vec<String> = vec!["condition:Shaken", "condition:Bleeding", "condition:Shaken", "condition:Haunted"]
        .into_iter().map(String::from).collect();
    apply_effects(&mut s, &effects);
    assert_eq!(s.conditions, vec!["Haunted", "Shaken", "Bleeding"]);
    let mut t = state(0, 0, &["Haunted"]);
    let effects: Vec<String> = vec!["condition:Shaken", "condition:clear", "condition:Cold", "condition:Bleeding", "condition:Cold"]
        .into_iter().map(String::from).collect();
    apply_effects(&mut t, &effects);
    assert_eq!(t.conditions, vec!["Cold", "Bleeding"]);
}
