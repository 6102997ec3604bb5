use glorfindel::rules::{AbilityEntry, CharacterRules, CheckTier, CheckType, RulesDb, SpecialRule};

fn db() -> RulesDb {
    RulesDb {
        check_types: vec![
            CheckType {
                id: "fear".to_string(),
                ability: "WIS_SAVE".to_string(),
                description: "Facing horror".to_string(),
                prose: String::new(),
                tiers: vec![
                    CheckTier {
                        id: "minor".to_string(),
                        dc: 10,
                        triggers: vec!["shadows".to_string(), "noises".to_string()],
                        on_fail: "You flinch.".to_string(),
                        on_success: "You steady yourself.".to_string(),
                        fail_effects: vec!["dread+1".to_string()],
                        succ_effects: vec![],
                    },
                    CheckTier {
                        id: "major".to_string(),
                        dc: 16,
                        triggers: vec!["the thing".to_string()],
                        on_fail: "You run.".to_string(),
                        on_success: "You hold.".to_string(),
                        fail_effects: vec!["dread+2".to_string(), "condition:Shaken".to_string()],
                        succ_effects: vec![],
                    },
                ],
            },
        ],
        characters: vec![CharacterRules {
            name: "Kay".to_string(),
            abilities: vec![
                AbilityEntry { name: "WIS_SAVE".to_string(), modifier: 3 },
                AbilityEntry { name: "ENDURE".to_string(), modifier: -1 },
            ],
            special_rules: vec![
                SpecialRule { id: "oath".to_string(), description: "Cannot lie.".to_string() },
                SpecialRule { id: "scar".to_string(), description: "Fears fire.".to_string() },
            ],
        }],
    }
}

#[test]
fn modifier_lookup_ignores_ascii_case() {
    let d = db();
    assert_eq!(d.modifier("kay", "wis_save"), 3);
    assert_eq!(d.modifier("KAY", "endure"), -1);
    assert_eq!(d.modifier("Kay", "BLADE"), 0);
    assert_eq!(d.modifier("Nobody", "ENDURE"), 0);
}

#[test]
fn dc_and_consequences() {
    let d = db();
    assert_eq!(d.dc("fear", "major"), 16);
    assert_eq!(d.dc("fear", "extreme"), 12);
    assert_eq!(d.dc("Fear", "major"), 12);
    assert_eq!(d.consequences("fear", "minor"), ("You flinch.", "You steady yourself."));
    assert_eq!(d.consequences("cosmic_dread", "minor"), ("Failure consequence.", "Success."));
}

#[test]
fn ability_for_check_defaults_to_unknown() {
    let d = db();
    assert_eq!(d.ability_for_check("fear"), "WIS_SAVE");
    assert_eq!(d.ability_for_check("stealth"), "Unknown");
}

#[test]
fn special_rules_listed() {
    let d = db();
    assert_eq!(d.special_rules_text("kay"), "- Cannot lie.\n- Fears fire.");
    assert_eq!(d.special_rules_text("Gareth"), "");
}

#[test]
fn assessor_context_layout() {
    let d = db();
    assert_eq!(
        d.assessor_context("Kay"),
        "CHECK TYPES AND TIERS:\nfear [WIS_SAVE]\n    minor (DC 10): shadows, noises\n    major (DC 16): the thing\n\nSPECIAL RULES FOR Kay:\n- Cannot lie.\n- Fears fire."
    );
}
