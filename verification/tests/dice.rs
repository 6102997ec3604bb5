use glorfindel::dice::{format_roll_summary, notation_total_fits, parse_notation, roll_dice, roll_inline, DiceRollTool};
use glorfindel::error::ToolError;

#[test]
fn parse_accepts_spaces_and_case() {
    assert_eq!(parse_notation("  2D6 + 3 "), Some((2, 6, 3)));
    assert_eq!(parse_notation("d100"), Some((1, 100, 0)));
}

#[test]
fn parse_rejects_out_of_range() {
    assert_eq!(parse_notation("0d6"), None);
    assert_eq!(parse_notation("101d6"), None);
    assert_eq!(parse_notation("d1"), None);
    assert_eq!(parse_notation("d1001"), None);
    assert_eq!(parse_notation("20"), None);
    assert_eq!(parse_notation("2d6+x"), None);
    assert_eq!(parse_notation(""), None);
}

#[test]
fn parse_uses_last_plus() {
    assert_eq!(parse_notation("1d6+2"), Some((1, 6, 2)));
    assert_eq!(parse_notation("1d6-2"), Some((1, 6, -2)));
    assert_eq!(parse_notation("1d6++2"), None);
}

#[test]
fn rolls_stay_in_range_and_vary() {
    let (rolls, sum) = roll_dice(100, 2);
    assert_eq!(rolls.len(), 100);
    assert!(rolls.iter().all(|r| *r == 1 || *r == 2));
    assert_eq!(sum, rolls.iter().sum::<u32>());
    assert!(rolls.contains(&1) && rolls.contains(&2));
}

#[test]
fn roll_inline_totals_with_modifier() {
    let (rolls, m, total) = roll_inline("3d4-2").unwrap();
    assert_eq!(rolls.len(), 3);
    assert_eq!(m, -2);
    assert_eq!(total, rolls.iter().map(|r| *r as i32).sum::<i32>() - 2);
    assert!(roll_inline("nonsense").is_none());
}

#[test]
fn roll_summary_format() {
    assert_eq!(format_roll_summary("2d6+3", &vec![4, 5], 3, 12), "2d6+3 → [4, 5]+3 = 12");
    assert_eq!(format_roll_summary("d20-1", &vec![7], -1, 6), "d20-1 → [7]-1 = 6");
    assert_eq!(format_roll_summary("d20", &vec![7], 0, 7), "d20 → [7] = 7");
}

#[test]
fn dice_tool_errors() {
    let tool = DiceRollTool;
    match tool.roll(None) {
        Err(ToolError::MissingParameter(p)) => assert_eq!(p, "notation"),
        _ => panic!("expected a missing parameter"),
    }
    match tool.roll(Some("d")) {
        Err(ToolError::InvalidParameter(m)) => assert_eq!(m, "cannot parse dice notation: 'd'"),
        _ => panic!("expected an invalid parameter"),
    }
}

#[test]
fn dice_tool_rolls() {
    let tool = DiceRollTool;
    let r = tool.roll(Some("d20")).unwrap();
    assert_eq!(r.rolls.len(), 1);
    assert!(r.rolls[0] >= 1 && r.rolls[0] <= 20);
    assert_eq!(r.total, r.rolls[0] as i32);
    assert_eq!(r.summary, format!("d20 → [{}] = {}", r.rolls[0], r.total));
}

#[test]
fn totals_that_overflow_are_flagged() {
    assert!(notation_total_fits("2d6+3"));
    assert!(!notation_total_fits("100d1000+2147483647"));
    assert!(notation_total_fits("not dice"));
}
