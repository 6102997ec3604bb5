use glorfindel::definitions::ApiError;
use glorfindel::board::{Routed, TaskBoard};
use glorfindel::runs::{
    accept_player_turn, accept_session_turn, check_summary_names, condense_user, condensed_label,
    eucatastrophe_run, fallback_text, grand_opener_run, impact_has_condition, player_turn_run, scene_opener_run,
    scene_output_path, scene_run, scene_synthesis_user, session_turn_run, step, summary_run, think_run, RunAction,
    RunKind, Step, SummaryKind,
};

fn bad(r: Result<(glorfindel::runs::Run, RunAction), ApiError>) -> String {
    match r {
        Err(ApiError::BadRequest(m)) => m,
        _ => panic!("expected a refusal"),
    }
}

fn run_all(
    first: (glorfindel::runs::Run, RunAction),
    mut reply: impl FnMut(Step) -> Result<String, String>,
) -> (glorfindel::runs::Run, Vec<Step>, Option<String>) {
    let (mut run, mut a) = first;
    let mut seen = Vec::new();
    loop {
        match a {
            RunAction::Do(s) => {
                seen.push(s);
                let (r, next) = step(run, reply(s));
                run = r;
                a = next;
            }
            RunAction::Finish => return (run, seen, None),
            RunAction::Abort(e) => return (run, seen, Some(e)),
        }
    }
}

#[test]
fn scene_pipeline_runs_its_steps_in_order() {
    let first = scene_run("turn_004.md");
    assert_eq!(first.0.output_file, "turn_004.md");
    let (run, seen, end) = run_all(first, |s| match s {
        Step::RollDice => Ok("SUCCESS".to_string()),
        Step::CharImpact => Ok("CONDITION|Ann|shaken".to_string()),
        s => Ok(format!("{s:?} done")),
    });
    assert_eq!(end, None);
    assert_eq!(
        seen,
        vec![
            Step::MetaHeader, Step::ReadGrounding, Step::FactCheck, Step::RulesAssess, Step::RollDice,
            Step::SaveParty, Step::DmWrite, Step::WriteOutput, Step::CharImpact, Step::ApplyImpact,
            Step::Summarize, Step::UpdateIndex, Step::Breadcrumb,
        ]
    );
    assert_eq!(run.replies.len(), 13);
    assert_eq!(run.replies[4], "SUCCESS");
}

#[test]
fn scene_pipeline_saves_only_after_a_roll_and_merges_only_conditions() {
    let (run, seen, end) = run_all(scene_run("turn_001.md"), |s| match s {
        Step::RollDice => Ok("NO_ROLL".to_string()),
        Step::CharImpact => Ok("DREAD|Ann|2".to_string()),
        _ => Ok(String::new()),
    });
    assert_eq!(end, None);
    assert!(!seen.contains(&Step::SaveParty));
    assert!(!seen.contains(&Step::ApplyImpact));
    assert_eq!(run.replies.len(), 13);
    assert_eq!(run.replies[5], "");
}

#[test]
fn failed_scene_steps_fall_back_and_the_run_goes_on() {
    let (run, _, end) = run_all(scene_run("turn_001.md"), |s| match s {
        Step::FactCheck | Step::RulesAssess | Step::DmWrite | Step::CharImpact | Step::Summarize | Step::MetaHeader => {
            Err("timeout".to_string())
        }
        _ => Ok("ok".to_string()),
    });
    assert_eq!(end, None);
    assert_eq!(run.replies[0], "");
    assert_eq!(run.replies[2], "");
    assert_eq!(run.replies[3], "NO_ROLL");
    assert_eq!(run.replies[6], "*(DM response error: timeout)*");
    assert_eq!(run.replies[8], "NO_CHANGE");
    assert_eq!(run.replies[9], "");
    assert_eq!(run.replies[10], "(summarizer error: timeout)");
}

#[test]
fn a_failure_without_fallback_ends_the_run() {
    let turns = vec!["turn_001.log".to_string()];
    let (run, seen, end) = run_all(summary_run(SummaryKind::Scene, "scene_summary.md", &turns).unwrap(), |s| match s {
        Step::Condense(_) => Err("down".to_string()),
        Step::Synthesize => Err("model gone".to_string()),
        _ => Ok(String::new()),
    });
    assert_eq!(end, Some("model gone".to_string()));
    assert_eq!(*seen.last().unwrap(), Step::Synthesize);
    assert_eq!(run.replies[2], "(failed to summarize turn_001.log)");
    assert_eq!(run.done, 3);
}

#[test]
fn fallback_texts_of_each_run() {
    let items = vec!["Sneak past the ghoul and then some more words to pass sixty characters".to_string()];
    let none: Vec<String> = vec![];
    assert_eq!(fallback_text(RunKind::Think, Step::RuleQuery, "x", &items, &none).unwrap(), items[0].chars().take(60).collect::<String>());
    assert_eq!(fallback_text(RunKind::Think, Step::Think, "x", &items, &none).unwrap(), "(thinker error: x)");
    assert_eq!(fallback_text(RunKind::Think, Step::ListDice, "x", &items, &none).unwrap(), "[]");
    assert_eq!(fallback_text(RunKind::SessionTurn, Step::DmWrite, "x", &none, &none).unwrap(), "*(DM writer error: x)*");
    assert_eq!(fallback_text(RunKind::SessionTurn, Step::RulesAssess, "x", &none, &none).unwrap(), "");
    assert!(fallback_text(RunKind::Eucatastrophe, Step::DmWrite, "x", &none, &none).is_none());
    assert!(fallback_text(RunKind::Opener, Step::ReadArchive, "x", &none, &none).is_none());
    let grace = vec!["WEIGHT: a lot\nMOMENT: the bells ring".to_string()];
    assert_eq!(fallback_text(RunKind::Eucatastrophe, Step::Skeleton, "x", &none, &grace).unwrap(), "the bells ring");
    assert_eq!(fallback_text(RunKind::Eucatastrophe, Step::Summarize, "x", &none, &none).unwrap(), "The eucatastrophe arrived.");
}

#[test]
fn scene_summary_prompts_and_paths() {
    assert_eq!(condensed_label("turn_003.log"), "turn_003.md");
    let long = "x".repeat(2500);
    let u = condense_user("turn_003.log", &long);
    assert_eq!(u, format!("Turn log: turn_003.log\n\n{}", "x".repeat(2000)));
    assert_eq!(scene_synthesis_user("shire", "session1", "scene2", "**a**: b"), "Campaign: shire\nScene: session1/scene2\n\nTurn facts:\n**a**: b");
    assert_eq!(scene_output_path("session1", "scene2", "turn_001.md"), "session1/scene2/turn_001.md");
    assert!(check_summary_names(SummaryKind::Session, "shire", "session1", "").is_ok());
    assert_eq!(check_summary_names(SummaryKind::Session, "shire", "..", ""), Err(ApiError::BadRequest("invalid name".to_string())));
    assert_eq!(check_summary_names(SummaryKind::Scene, "shire", "session1", "a\\b"), Err(ApiError::BadRequest("invalid name".to_string())));
    assert!(check_summary_names(SummaryKind::SceneLegacy, "..", "..", "..").is_ok());
}

#[test]
fn accepted_turns_are_on_the_board() {
    let mut board: TaskBoard<String> = TaskBoard::new();
    let r = accept_session_turn(&mut board, 7, 8, "shire", "session1", "open the door", "turn_002.md", 100);
    assert_eq!((r.task_id, r.session_dir.as_str(), r.output_file.as_str()), (7, "session1", "turn_002.md"));
    let t = board.get(7).unwrap();
    assert_eq!(t.agent_name, "📖 shire / session1");
    assert_eq!(t.intent, "[turn] open the door");
    assert_eq!(t.status, glorfindel::schemas::Status::InProgress);
    accept_player_turn(&mut board, 9, 10, "shire", "session1", "Ann", "sneak", "turn_003.md", 101);
    let t = board.get(9).unwrap();
    assert_eq!(t.agent_name, "🎭 shire / session1 / Ann");
    assert_eq!(t.intent, "[player] Ann: sneak");
}

#[test]
fn answers_go_to_waiters_first_then_to_records() {
    let mut board: TaskBoard<String> = TaskBoard::new();
    board.submit(1, 2, "a", "i", 10);
    let mut pending = std::collections::HashSet::new();
    pending.insert(1u128);
    assert!(matches!(glorfindel::board::route_response(&mut pending, &mut board, 1, "r1".to_string(), 20), Routed::ToWaiter(ref r) if r == "r1"));
    assert!(pending.is_empty());
    assert_eq!(board.get(1).unwrap().status, glorfindel::schemas::Status::InProgress);
    assert!(matches!(glorfindel::board::route_response(&mut pending, &mut board, 1, "r2".to_string(), 30), Routed::Completed));
    let t = board.get(1).unwrap();
    assert_eq!(t.status, glorfindel::schemas::Status::Complete);
    assert_eq!(t.response.as_deref(), Some("r2"));
    assert_eq!(t.completed_at, Some(30));
    assert!(matches!(glorfindel::board::route_response(&mut pending, &mut board, 5, "r3".to_string(), 40), Routed::Unknown));
}

#[test]
fn session_and_player_turns_reject_then_name_their_output() {
    let entries = vec!["turn_001.md".to_string(), "turn_007.md".to_string(), "notes.md".to_string()];
    assert_eq!(bad(session_turn_run("", "session1", None, &entries)), "invalid campaign name");
    assert_eq!(bad(session_turn_run("shire", "../etc", None, &entries)), "invalid session_dir");
    assert_eq!(bad(session_turn_run("shire", "a\\b", None, &entries)), "invalid session_dir");
    let (run, a) = session_turn_run("shire", "session1", None, &entries).unwrap();
    assert_eq!(run.output_file, "turn_008.md");
    assert!(matches!(a, RunAction::Do(Step::MetaHeader)));
    assert_eq!(run.steps[1], Step::Think);
    let (run, _) = session_turn_run("shire", "session1", Some("Arrival.md"), &entries).unwrap();
    assert_eq!(run.output_file, "Arrival.md");

    assert_eq!(bad(player_turn_run("shire", "session1", "  ", "sneak", None, &entries)), "character and action required");
    assert_eq!(bad(player_turn_run("shire", "..", "Ann", "sneak", None, &entries)), "invalid session_dir");
    let (run, _) = player_turn_run("shire", "session1", "Ann", "sneak", None, &vec![]).unwrap();
    assert_eq!(run.output_file, "turn_001.md");
    let rules = run.steps.iter().position(|s| *s == Step::RulesAssess).unwrap();
    let dice = run.steps.iter().position(|s| *s == Step::RollDice).unwrap();
    let write = run.steps.iter().position(|s| *s == Step::DmWrite).unwrap();
    let index = run.steps.iter().position(|s| *s == Step::UpdateIndex).unwrap();
    assert!(rules < dice && dice < write && write < index);
}

#[test]
fn eucatastrophe_needs_five_sessions() {
    let four: Vec<String> = (1..=4).map(|n| format!("session{n}")).collect();
    assert_eq!(bad(eucatastrophe_run("shire", &four)), "Eucatastrophe requires 5+ completed sessions — found 4");
    assert_eq!(bad(eucatastrophe_run("", &four)), "invalid name");
    let five: Vec<String> = (1..=5).map(|n| format!("session{n}")).collect();
    let (run, _) = eucatastrophe_run("shire", &five).unwrap();
    assert_eq!(run.output_file, "session6/turn01_eucatastrophe.md");
    assert!(run.steps.contains(&Step::Grace) && run.steps.contains(&Step::Skeleton));
}

#[test]
fn openers_name_their_output() {
    let (run, _) = grand_opener_run("shire", "session3").unwrap();
    assert_eq!(run.output_file, "session4/turn01_opening.md");
    let (run, _) = grand_opener_run("shire", "prologue").unwrap();
    assert_eq!(run.output_file, "prologue_next/turn01_opening.md");
    let dirs = vec!["scene1".to_string(), "scene3".to_string()];
    let (run, _) = scene_opener_run("shire", "session2", None, &dirs).unwrap();
    assert_eq!(run.output_file, "session2/scene4/scene_opener.md");
    let (run, _) = scene_opener_run("shire", "session2", Some("camp"), &dirs).unwrap();
    assert_eq!(run.output_file, "session2/camp/scene_opener.md");
    assert_eq!(bad(scene_opener_run("shire", "..", None, &dirs)), "invalid name");
    assert_eq!(bad(grand_opener_run("shire", "..")), "invalid name");
    assert_eq!(bad(grand_opener_run("..", "session3")), "invalid name");
    let (run, a) = think_run("shire", "storm the keep").unwrap();
    assert_eq!(run.items, vec!["storm the keep".to_string()]);
    assert!(matches!(a, RunAction::Do(Step::Think)));
    assert_eq!(*run.steps.last().unwrap(), Step::DmWrite);
}

#[test]
fn summaries_condense_each_turn_then_synthesize() {
    match summary_run(SummaryKind::Scene, "scene_summary.md", &vec![]) {
        Err(m) => assert_eq!(m, "no turn logs"),
        _ => panic!("expected a failure"),
    }
    let turns = vec!["turn_001.log".to_string(), "turn_002.log".to_string()];
    let (run, _) = summary_run(SummaryKind::Session, "session_summary.md", &turns).unwrap();
    assert_eq!(
        run.steps,
        vec![
            Step::MetaHeader, Step::ReadArchive, Step::Condense(0), Step::Condense(1), Step::Synthesize,
            Step::WriteOutput, Step::UpdateIndex,
        ]
    );
    assert_eq!(run.items, turns);
}

#[test]
fn impact_conditions_are_detected() {
    assert!(impact_has_condition("DREAD|Ann|2\nCONDITION|Ann|shaken"));
    assert!(!impact_has_condition("NO_CHANGE"));
}
