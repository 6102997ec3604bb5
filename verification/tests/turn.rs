use glorfindel::party::PartyState;
use glorfindel::rules::{AbilityEntry, CharacterRules, CheckTier, CheckType, RulesDb};
use glorfindel::turn::{plan_roll, run_dice_step};

fn db() -> RulesDb {
    RulesDb {
        check_types: vec![CheckType {
            id: "fear".to_string(),
            ability: "WIS_SAVE".to_string(),
            description: String::new(),
            prose: String::new(),
            tiers: vec![CheckTier {
                id: "major".to_string(),
                dc: 16,
                triggers: vec![],
                on_fail: "You run.".to_string(),
                on_success: "You hold.".to_string(),
                fail_effects: vec!["dread+2".to_string(), "condition:Shaken".to_string()],
                succ_effects: vec!["cdp+1".to_string()],
            }],
        }],
        characters: vec![CharacterRules {
            name: "Kay".to_string(),
            abilities: vec![AbilityEntry { name: "WIS_SAVE".to_string(), modifier: 3 }],
            special_rules: vec![],
        }],
    }
}

#[test]
fn roll_plan_with_rules() {
    let d = db();
    let p = plan_roll("ROLL|Kay|fear|major|the beast", Some(&d)).unwrap();
    assert_eq!(p.dc, 16);
    assert_eq!(p.modifier, 3);
    assert_eq!(p.label, "WIS_SAVE (fear)");
    assert_eq!(p.on_fail, "You run.");
    assert!(plan_roll("nothing", Some(&d)).is_none());
}

#[test]
fn roll_plan_without_rules() {
    let p = plan_roll("ROLL|Bors|stealth|minor", None).unwrap();
    assert_eq!((p.dc, p.modifier, p.label.as_str(), p.reason.as_str()), (12, 0, "stealth", ""));
    assert_eq!((p.on_fail.as_str(), p.on_success.as_str()), ("Failure consequence.", "Success."));
}

#[test]
fn dice_step_applies_effects() {
    let d = db();
    let mut party = PartyState::new();
    let step = run_dice_step("ROLL|Kay|fear|major|the beast\nNO_ROLL", Some(&d), &mut party);
    assert_eq!(step.dice.len(), 1);
    assert!(step.dice[0] >= 1 && step.dice[0] <= 20);
    assert_eq!(step.totals[0], step.dice[0] as i32 + 3);
    assert_eq!(step.dice_lines[0], "1d20+3");
    let kay = party.get("Kay").unwrap();
    if step.totals[0] >= 16 {
        assert_eq!(step.roll_outcomes[0], "SUCCESS");
        assert_eq!((kay.dread, kay.cdp), (0, 1));
        assert_eq!(step.dice_prose_results[0], "Kay WIS_SAVE (fear): SUCCESS\n  ↳ You hold.\n  ↳ the beast");
    } else {
        assert_eq!(step.roll_outcomes[0], "FAILURE");
        assert_eq!(kay.dread, 2);
        assert_eq!(kay.conditions, vec!["Shaken".to_string()]);
    }
    assert_eq!(
        step.dice_results[0],
        format!("Kay WIS_SAVE (fear): 1d20+3 → [{}]+3 = **{}** vs DC 16 → **{}**\n  ↳ {}\n  ↳ the beast",
            step.dice[0], step.totals[0], step.roll_outcomes[0],
            if step.totals[0] >= 16 { "You hold." } else { "You run." })
    );
}
