//! The admin server's long-running campaign runs (the scene-turn pipeline,
//! session and player turns, the think-and-run planner, the openers, the
//! eucatastrophe and the summarizers) as step machines: what each run
//! rejects before it starts, the output it writes, the order of its steps,
//! the steps it passes over, and what stands in for a step that failed.
//! The caller performs each step (a file read, a model call, a write) and
//! hands back what it produced; the run says what comes next.
use vstd::prelude::*;

use crate::campaign::{name_ok, safe_name};
use crate::board::{submitted, submitted_record, TaskBoard};
use crate::definitions::ApiError;
use crate::pipeline::turn_file;
use crate::planner::{
    euca_session, euca_session_name, eucatastrophe_shortfall, max_scene, moment_line, moment_of, next_scene_name,
};
use crate::session::{
    next_session, next_session_defined, next_session_name, next_turn, next_turn_file, output_file_name,
    output_file_name_of, turn_numbers_bounded,
};
use crate::text::{
    contains, contains_chars, decimal, deep, lemma_views_push, lines, lines_chars, owned, push_str, starts_with,
    replace_all, replace_str, str_eq, strip_prefix_chars, take_chars, take_prefix, to_chars, trim, trim_chars, views,
};

verus! {

// ─────────────────────────────── steps ─────────────────────────────────────

/// One step of a run.
#[derive(Debug, Clone, Copy, PartialEq, Eq, Structural)]
pub enum Step {
    /// Open the run's meta log with its header.
    MetaHeader,
    /// The thinker's plan (a model call).
    Think,
    /// The critic's review of the plan (a model call).
    Critique,
    /// Read the earlier sessions or turn logs the run works from.
    ReadArchive,
    /// Read the campaign files the run is grounded on.
    ReadGrounding,
    /// What happened so far (the fact checker).
    FactCheck,
    /// The rules assessor's `ROLL|` lines.
    RulesAssess,
    /// Ask the rules lawyer agent (a child task).
    RuleQuery,
    /// Let the model pick the campaign files to read.
    SelectFiles,
    /// Let the model list the dice to roll.
    ListDice,
    /// Roll the dice the run asked for (the library's dice step).
    RollDice,
    /// Persist the party state after the dice effects.
    SaveParty,
    /// The grace finding of a eucatastrophe (a model call).
    Grace,
    /// The beat skeleton of a eucatastrophe (a model call).
    Skeleton,
    /// The twist of a grand opener (a model call).
    Twist,
    /// The action summary of a think-and-run (a model call).
    SummarizeAction,
    /// The DM writer's prose (a model call or agent task).
    DmWrite,
    /// Write the run's output file.
    WriteOutput,
    /// The condition tracker's impact lines.
    CharImpact,
    /// Merge the impact lines into the party state.
    ApplyImpact,
    /// The one-line summary of the turn.
    Summarize,
    /// Condense one turn log (the item at this position).
    Condense(usize),
    /// The final recap from the condensed turns.
    Synthesize,
    /// Update the index file (`TURNS.md`, `SCENES.md` or `SESSIONS.md`).
    UpdateIndex,
    /// Append the turn breadcrumb to `world/party.md`.
    Breadcrumb,
}

/// The scene-turn pipeline of the task worker: header, grounding, fact
/// check, rules, dice, party saved, prose written, impact merged, summary,
/// index and breadcrumb.
pub open spec fn scene_steps() -> Seq<Step> {
    seq![
        Step::MetaHeader, Step::ReadGrounding, Step::FactCheck, Step::RulesAssess, Step::RollDice,
        Step::SaveParty, Step::DmWrite, Step::WriteOutput, Step::CharImpact, Step::ApplyImpact,
        Step::Summarize, Step::UpdateIndex, Step::Breadcrumb,
    ]
}

/// A session turn: the thinker plans first, then the grounded turn.
pub open spec fn session_turn_steps() -> Seq<Step> {
    seq![
        Step::MetaHeader, Step::Think, Step::ReadGrounding, Step::FactCheck, Step::RulesAssess,
        Step::RollDice, Step::DmWrite, Step::WriteOutput, Step::Summarize, Step::UpdateIndex,
    ]
}

/// A player turn: grounding, fact check, rules, dice, prose, summary, index.
pub open spec fn player_turn_steps() -> Seq<Step> {
    seq![
        Step::MetaHeader, Step::ReadGrounding, Step::FactCheck, Step::RulesAssess, Step::RollDice,
        Step::DmWrite, Step::WriteOutput, Step::Summarize, Step::UpdateIndex,
    ]
}

/// Think and run: plan, critique, rules lawyer, campaign files, dice, action
/// summary, and the DM writer's task last.
pub open spec fn think_steps() -> Seq<Step> {
    seq![
        Step::Think, Step::Critique, Step::RuleQuery, Step::SelectFiles, Step::ReadGrounding,
        Step::ListDice, Step::RollDice, Step::SummarizeAction, Step::DmWrite,
    ]
}

/// A eucatastrophe: the session archive, grounding, the critic, the grace
/// finding, the beat skeleton, the prose, its summary and a fresh index.
pub open spec fn eucatastrophe_steps() -> Seq<Step> {
    seq![
        Step::MetaHeader, Step::ReadArchive, Step::ReadGrounding, Step::FactCheck, Step::Grace,
        Step::Skeleton, Step::DmWrite, Step::WriteOutput, Step::Summarize, Step::UpdateIndex,
    ]
}

/// A grand opener: the hook session's archive, the twist, the prose and a
/// fresh index.
pub open spec fn opener_steps() -> Seq<Step> {
    seq![Step::MetaHeader, Step::ReadArchive, Step::Twist, Step::DmWrite, Step::WriteOutput, Step::UpdateIndex]
}

/// A scene opener: prior context, the prose, written.
pub open spec fn scene_opener_steps() -> Seq<Step> {
    seq![Step::MetaHeader, Step::ReadGrounding, Step::DmWrite, Step::WriteOutput]
}

/// The condensing of `n` turns, first to last.
pub open spec fn condense_steps(n: nat) -> Seq<Step>
    decreases n,
{
    if n == 0 {
        Seq::empty()
    } else {
        condense_steps((n - 1) as nat).push(Step::Condense((n - 1) as usize))
    }
}

/// A summary (map then reduce): header, the turn logs, each turn condensed
/// once and in order, one synthesis, the output written, the index updated.
pub open spec fn summary_steps(n: nat) -> Seq<Step> {
    seq![Step::MetaHeader, Step::ReadArchive] + condense_steps(n) + seq![
        Step::Synthesize,
        Step::WriteOutput,
        Step::UpdateIndex,
    ]
}

// ─────────────────────────────── the run ───────────────────────────────────

/// Which run this is: it decides what stands in for a failed step.
#[derive(Debug, Clone, Copy, PartialEq, Eq, Structural)]
pub enum RunKind {
    Scene,
    SessionTurn,
    PlayerTurn,
    Think,
    Eucatastrophe,
    Opener,
    SceneOpener,
    Summary(SummaryKind),
}

/// What the caller does next.
pub enum RunAction {
    Do(Step),
    Finish,
    Abort(String),
}

/// A run in progress: its kind, its steps, how many are done, what each
/// produced, the file it writes, and the items it works through (the turn
/// logs of a summary, the intent of a think-and-run).
pub struct Run {
    pub kind: RunKind,
    pub steps: Vec<Step>,
    pub done: usize,
    pub replies: Vec<String>,
    pub output_file: String,
    pub items: Vec<String>,
}

/// The action after `done` steps: the next step, or finishing.
pub open spec fn action_at(steps: Seq<Step>, done: int) -> Option<Step> {
    if 0 <= done < steps.len() {
        Some(steps[done])
    } else {
        None
    }
}

pub open spec fn asks(a: RunAction, s: Option<Step>) -> bool {
    match s {
        Some(st) => a == RunAction::Do(st),
        None => a is Finish,
    }
}

impl Run {
    /// A run is consistent: no more steps done than it has, and one reply
    /// per step done.
    pub open spec fn wf(&self) -> bool {
        self.done <= self.steps@.len() && self.replies@.len() == self.done
    }
}

/// A step that only reads or writes files: a failure there is passed over.
pub open spec fn is_file_step(s: Step) -> bool {
    s is MetaHeader || s is ReadGrounding || s is ReadArchive || s is WriteOutput || s is UpdateIndex
        || s is Breadcrumb || s is SaveParty || s is ApplyImpact || s is RollDice
}

/// What stands in for a step that failed with `e`: `None` where the failure
/// ends the run. The model steps fall back to these texts; file steps to
/// nothing, except the opener's hook material, without which it stops.
pub open spec fn fallback(
    kind: RunKind,
    s: Step,
    e: Seq<char>,
    items: Seq<Seq<char>>,
    replies: Seq<Seq<char>>,
) -> Option<Seq<char>> {
    match s {
        Step::Think => Some("(thinker error: "@ + e + ")"@),
        Step::Critique => Some("(critic error: "@ + e + ")"@),
        Step::RuleQuery => Some(if items.len() > 0 { take_chars(items[0], 60) } else { Seq::empty() }),
        Step::SelectFiles => Some(Seq::empty()),
        Step::ListDice => Some("[]"@),
        Step::FactCheck => Some(Seq::empty()),
        Step::RulesAssess => if kind == RunKind::Scene { Some("NO_ROLL"@) } else { Some(Seq::empty()) },
        Step::Grace => Some("WEIGHT: much endured SEED: a small loyalty MOMENT: the light returns"@),
        Step::Skeleton => Some(moment_of(if replies.len() > 0 { replies.last() } else { Seq::empty() })),
        Step::Twist => Some("TENSION: unknown  TWIST: unknown  OPENING IMAGE: the road ahead"@),
        Step::SummarizeAction => Some("(summarizer error: "@ + e + ")"@),
        Step::DmWrite => match kind {
            RunKind::Scene | RunKind::PlayerTurn => Some("*(DM response error: "@ + e + ")*"@),
            RunKind::SessionTurn => Some("*(DM writer error: "@ + e + ")*"@),
            _ => None,
        },
        Step::CharImpact => Some("NO_CHANGE"@),
        Step::Summarize => if kind == RunKind::Eucatastrophe {
            Some("The eucatastrophe arrived."@)
        } else {
            Some("(summarizer error: "@ + e + ")"@)
        },
        Step::Condense(i) => Some(
            "(failed to summarize "@ + (if i < items.len() { items[i as int] } else { Seq::empty() }) + ")"@,
        ),
        Step::Synthesize => None,
        Step::ReadArchive => if kind == RunKind::Opener { None } else { Some(Seq::empty()) },
        _ => Some(Seq::empty()),
    }
}

/// What a step's outcome leaves as its reply: the reply itself, else the
/// fallback for its failure.
pub open spec fn reply_for(
    kind: RunKind,
    s: Step,
    outcome: Result<Seq<char>, Seq<char>>,
    items: Seq<Seq<char>>,
    replies: Seq<Seq<char>>,
) -> Option<Seq<char>> {
    match outcome {
        Ok(t) => Some(t),
        Err(e) => fallback(kind, s, e, items, replies),
    }
}

/// A step the run passes over after `prev`, the reply just before it: the
/// party is saved only after a roll, and impact lines are merged only when
/// they hold a `CONDITION|` line.
pub open spec fn skips(s: Step, prev: Seq<char>) -> bool {
    (s is SaveParty && prev == "NO_ROLL"@) || (s is ApplyImpact && !has_condition_line(prev))
}

/// Where a run stands after a step left `reply`: the next step, passed over
/// (with an empty reply) when it [`skips`].
pub open spec fn advanced(steps: Seq<Step>, done: int, replies: Seq<Seq<char>>) -> (int, Seq<Seq<char>>) {
    let d = done + 1;
    if d < steps.len() && skips(steps[d], replies.last()) {
        (d + 1, replies.push(Seq::empty()))
    } else {
        (d, replies)
    }
}

pub open spec fn outcome_seq(o: Result<String, String>) -> Result<Seq<char>, Seq<char>> {
    match o {
        Ok(t) => Ok(t@),
        Err(e) => Err(e@),
    }
}

fn steps_vec(s: &[Step]) -> (r: Vec<Step>)
    ensures
        r@ == s@,
{
    let mut r: Vec<Step> = Vec::new();
    let mut i: usize = 0;
    while i < s.len()
        invariant
            i <= s@.len(),
            r@ == s@.take(i as int),
        decreases s@.len() - i,
    {
        r.push(s[i]);
        assert(s@.take(i + 1) =~= s@.take(i as int).push(s@[i as int]));
        i += 1;
    }
    assert(s@.take(s@.len() as int) =~= s@);
    r
}

fn copy_strings_of(v: &Vec<String>) -> (r: Vec<String>)
    ensures
        views(r@) == views(v@),
{
    crate::schemas::copy_strings(v)
}

fn wrapped(prefix: &str, e: &str, suffix: &str) -> (r: String)
    ensures
        r@ == prefix@ + e@ + suffix@,
{
    let mut r = owned(prefix);
    push_str(&mut r, e);
    push_str(&mut r, suffix);
    r
}

/// The text that stands in for a failed step (see [`fallback`]).
pub fn fallback_text(kind: RunKind, s: Step, e: &str, items: &Vec<String>, replies: &Vec<String>) -> (r: Option<String>)
    ensures
        match r {
            Some(t) => fallback(kind, s, e@, views(items@), views(replies@)) == Some(t@),
            None => fallback(kind, s, e@, views(items@), views(replies@)) is None,
        },
{
    proof {
        reveal_strlit("");
        reveal_strlit("[]");
        reveal_strlit("NO_ROLL");
        reveal_strlit("NO_CHANGE");
    }
    match s {
        Step::Think => Some(wrapped("(thinker error: ", e, ")")),
        Step::Critique => Some(wrapped("(critic error: ", e, ")")),
        Step::RuleQuery => if items.len() > 0 {
            assert(views(items@)[0] == items@[0]@);
            Some(take_prefix(items[0].as_str(), 60))
        } else {
            Some(owned(""))
        },
        Step::SelectFiles => Some(owned("")),
        Step::ListDice => Some(owned("[]")),
        Step::FactCheck => Some(owned("")),
        Step::RulesAssess => if kind == RunKind::Scene {
            Some(owned("NO_ROLL"))
        } else {
            Some(owned(""))
        },
        Step::Grace => Some(owned("WEIGHT: much endured SEED: a small loyalty MOMENT: the light returns")),
        Step::Skeleton => if replies.len() > 0 {
            let last = replies.len() - 1;
            assert(views(replies@).last() == replies@[last as int]@);
            Some(moment_line(replies[last].as_str()))
        } else {
            Some(moment_line(""))
        },
        Step::Twist => Some(owned("TENSION: unknown  TWIST: unknown  OPENING IMAGE: the road ahead")),
        Step::SummarizeAction => Some(wrapped("(summarizer error: ", e, ")")),
        Step::DmWrite => match kind {
            RunKind::Scene | RunKind::PlayerTurn => Some(wrapped("*(DM response error: ", e, ")*")),
            RunKind::SessionTurn => Some(wrapped("*(DM writer error: ", e, ")*")),
            _ => None,
        },
        Step::CharImpact => Some(owned("NO_CHANGE")),
        Step::Summarize => if kind == RunKind::Eucatastrophe {
            Some(owned("The eucatastrophe arrived."))
        } else {
            Some(wrapped("(summarizer error: ", e, ")"))
        },
        Step::Condense(i) => if i < items.len() {
            assert(views(items@)[i as int] == items@[i as int]@);
            Some(wrapped("(failed to summarize ", items[i].as_str(), ")"))
        } else {
            Some(wrapped("(failed to summarize ", "", ")"))
        },
        Step::Synthesize => None,
        Step::ReadArchive => if kind == RunKind::Opener {
            None
        } else {
            Some(owned(""))
        },
        _ => Some(owned("")),
    }
}

/// Starts a run: nothing done yet, and the first step asked for (or
/// finishing, for a run without steps).
pub fn begin(kind: RunKind, steps: Vec<Step>, output_file: String, items: Vec<String>) -> (r: (Run, RunAction))
    ensures
        r.0.kind == kind,
        r.0.steps == steps,
        r.0.done == 0,
        r.0.replies@.len() == 0,
        r.0.output_file == output_file,
        r.0.items == items,
        r.0.wf(),
        asks(r.1, action_at(steps@, 0)),
{
    let a = if steps.len() > 0 { RunAction::Do(steps[0]) } else { RunAction::Finish };
    (Run { kind, steps, done: 0, replies: Vec::new(), output_file, items }, a)
}

/// Takes what the current step produced: its reply, or on a failure the
/// run's [`fallback`], is recorded and the run moves on ([`advanced`]),
/// passing over a step that [`skips`]; a failure without a fallback ends
/// the run with the error.
pub fn step(run: Run, outcome: Result<String, String>) -> (r: (Run, RunAction))
    requires
        run.wf(),
        run.done < run.steps@.len(),
    ensures
        match reply_for(run.kind, run.steps@[run.done as int], outcome_seq(outcome), views(run.items@), views(run.replies@)) {
            Some(t) => {
                let (d, reps) = advanced(run.steps@, run.done as int, views(run.replies@).push(t));
                &&& r.0.kind == run.kind
                &&& r.0.steps == run.steps
                &&& r.0.done == d
                &&& views(r.0.replies@) == reps
                &&& r.0.output_file == run.output_file
                &&& r.0.items == run.items
                &&& r.0.wf()
                &&& asks(r.1, action_at(run.steps@, d))
            },
            None => r.0 == run && (r.1 matches RunAction::Abort(e) && outcome matches Err(e0) && e == e0),
        },
{
    let d0 = run.done;
    let n = run.steps.len();
    assert(d0 < n);
    let s = run.steps[d0];
    let ghost items = views(run.items@);
    let ghost reps0 = views(run.replies@);
    let reply = match outcome {
        Ok(t) => t,
        Err(e) => match fallback_text(run.kind, s, e.as_str(), &run.items, &run.replies) {
            Some(t) => t,
            None => {
                return (run, RunAction::Abort(e));
            },
        },
    };
    assert(reply_for(run.kind, s, outcome_seq(outcome), items, reps0) == Some(reply@));
    let skip_next = d0 + 1 < n && {
        let nx = run.steps[d0 + 1];
        match nx {
            Step::SaveParty => str_eq(reply.as_str(), "NO_ROLL"),
            Step::ApplyImpact => !impact_has_condition(reply.as_str()),
            _ => false,
        }
    };
    proof {
        reveal_strlit("NO_ROLL");
        lemma_views_push(run.replies@, reply);
        let reps1 = reps0.push(reply@);
        assert(reps1.last() == reply@);
        assert(skip_next == (d0 + 1 < n && skips(run.steps@[d0 + 1], reps1.last())));
    }
    let mut run = run;
    run.replies.push(reply);
    run.done = d0 + 1;
    if skip_next {
        let empty = owned("");
        proof {
            reveal_strlit("");
            assert(empty@ =~= Seq::<char>::empty());
            lemma_views_push(run.replies@, empty);
        }
        run.replies.push(empty);
        run.done = d0 + 2;
    }
    let a = if run.done < run.steps.len() { RunAction::Do(run.steps[run.done]) } else { RunAction::Finish };
    (run, a)
}

/// Each step is asked for once, in order: after `k` replies the run asks for
/// step `k`, and after the last it finishes.
pub proof fn law_steps_in_order(steps: Seq<Step>, k: int)
    requires
        0 <= k <= steps.len(),
    ensures
        k < steps.len() ==> action_at(steps, k) == Some(steps[k]),
        k == steps.len() ==> action_at(steps, k) is None,
{
}

/// Only these failures end a run: the synthesis of a summary, the prose of
/// a run that has no fallback text for it (think-and-run, the openers, the
/// eucatastrophe) and the hook material of a grand opener. Every other
/// failed step leaves its fallback as the reply and the run goes on.
pub proof fn law_failures_that_end_a_run(
    kind: RunKind,
    s: Step,
    e: Seq<char>,
    items: Seq<Seq<char>>,
    replies: Seq<Seq<char>>,
)
    ensures
        fallback(kind, s, e, items, replies) is None <==> (s is Synthesize || (s is DmWrite && kind != RunKind::Scene
            && kind != RunKind::PlayerTurn && kind != RunKind::SessionTurn) || (s is ReadArchive && kind
            == RunKind::Opener)),
{
}

/// The party is saved only after a roll, and impact lines are merged only
/// when they hold a condition: after a reply, the next step is passed over
/// exactly in those cases, and the run then stands one step further with an
/// empty reply for it.
pub proof fn law_conditional_steps(steps: Seq<Step>, done: int, replies: Seq<Seq<char>>)
    requires
        0 <= done,
        done + 1 < steps.len(),
        replies.len() > 0,
    ensures
        (steps[done + 1] is SaveParty && replies.last() == "NO_ROLL"@) ==> advanced(steps, done, replies)
            == (done + 2, replies.push(Seq::empty())),
        (steps[done + 1] is ApplyImpact && !has_condition_line(replies.last())) ==> advanced(steps, done, replies)
            == (done + 2, replies.push(Seq::empty())),
        !(steps[done + 1] is SaveParty || steps[done + 1] is ApplyImpact) ==> advanced(steps, done, replies) == (
            done + 1,
            replies,
        ),
{
}

// ─────────────────────────────── starting runs ─────────────────────────────

fn bad_request(m: &str) -> (r: ApiError)
    ensures
        r matches ApiError::BadRequest(x) && x@ == m@,
{
    ApiError::BadRequest(owned(m))
}

/// A session directory may hold neither `..` nor a backslash.
pub open spec fn session_dir_ok(d: Seq<char>) -> bool {
    !contains(d, ".."@) && !d.contains('\\')
}

fn session_dir_valid(d: &str) -> (r: bool)
    ensures
        r == session_dir_ok(d@),
{
    let v = to_chars(d);
    let dots = to_chars("..");
    let mut i: usize = 0;
    while i < v.len()
        invariant
            i <= v@.len(),
            v@ == d@,
            forall|k: int| 0 <= k < i ==> v@[k] != '\\',
        decreases v@.len() - i,
    {
        if v[i] == '\\' {
            assert(d@[i as int] == '\\');
            return false;
        }
        i += 1;
    }
    !contains_chars(&v, &dots)
}

/// The output a turn writes: the requested name made a flat `.md` name, or,
/// when none is requested, one past the highest `turn_N.md` in the session.
pub open spec fn turn_output(requested: Option<Seq<char>>, entries: Seq<Seq<char>>) -> Seq<char> {
    match requested {
        Some(f) if f.len() > 0 => output_file_name(f),
        _ => turn_file(next_turn(entries) as nat),
    }
}

pub open spec fn opt_view(o: Option<&str>) -> Option<Seq<char>> {
    match o {
        Some(x) => Some(x@),
        None => None,
    }
}

/// Whether the turn output can be named: a name was requested, or the
/// session's turn numbers leave room for one more.
pub open spec fn turn_output_defined(requested: Option<Seq<char>>, entries: Seq<Seq<char>>) -> bool {
    (requested matches Some(f) && f.len() > 0) || turn_numbers_bounded(entries)
}

fn turn_output_of(requested: Option<&str>, entries: &Vec<String>) -> (r: String)
    requires
        turn_output_defined(opt_view(requested), views(entries@)),
    ensures
        r@ == turn_output(opt_view(requested), views(entries@)),
{
    match requested {
        Some(f) => {
            if f.is_empty() {
                next_turn_file(entries)
            } else {
                output_file_name_of(f)
            }
        },
        None => next_turn_file(entries),
    }
}

/// The scene-turn pipeline of the task worker for the turn file `out_file`.
pub fn scene_run(out_file: &str) -> (r: (Run, RunAction))
    ensures
        r.0.steps@ == scene_steps(),
        r.0.kind == RunKind::Scene,
        r.0.done == 0,
        r.0.output_file@ == out_file@,
        r.0.wf(),
        asks(r.1, action_at(scene_steps(), 0)),
{
    let steps = steps_vec(
        &[
            Step::MetaHeader, Step::ReadGrounding, Step::FactCheck, Step::RulesAssess, Step::RollDice,
            Step::SaveParty, Step::DmWrite, Step::WriteOutput, Step::CharImpact, Step::ApplyImpact,
            Step::Summarize, Step::UpdateIndex, Step::Breadcrumb,
        ],
    );
    assert(steps@ =~= scene_steps());
    begin(RunKind::Scene, steps, owned(out_file), Vec::new())
}

/// A session turn: refused with `invalid campaign name` for an unsafe
/// campaign name, then with `invalid session_dir` for a session directory
/// holding `..` or a backslash; else it writes [`turn_output`].
pub fn session_turn_run(campaign: &str, session_dir: &str, output_file: Option<&str>, entries: &Vec<String>) -> (r: Result<(Run, RunAction), ApiError>)
    requires
        name_ok(campaign@) && session_dir_ok(session_dir@) ==> turn_output_defined(opt_view(output_file), views(entries@)),
    ensures
        !name_ok(campaign@) ==> (r matches Err(ApiError::BadRequest(m)) && m@ == "invalid campaign name"@),
        name_ok(campaign@) && !session_dir_ok(session_dir@) ==> (r matches Err(ApiError::BadRequest(m))
            && m@ == "invalid session_dir"@),
        name_ok(campaign@) && session_dir_ok(session_dir@) ==> (r matches Ok((run, a)) && {
            &&& run.steps@ == session_turn_steps()
            &&& run.kind == RunKind::SessionTurn
            &&& run.done == 0
            &&& run.wf()
            &&& run.output_file@ == turn_output(opt_view(output_file), views(entries@))
            &&& asks(a, action_at(session_turn_steps(), 0))
        }),
{
    if !safe_name(campaign) {
        return Err(bad_request("invalid campaign name"));
    }
    if !session_dir_valid(session_dir) {
        return Err(bad_request("invalid session_dir"));
    }
    let out = turn_output_of(output_file, entries);
    let steps = steps_vec(
        &[
            Step::MetaHeader, Step::Think, Step::ReadGrounding, Step::FactCheck, Step::RulesAssess,
            Step::RollDice, Step::DmWrite, Step::WriteOutput, Step::Summarize, Step::UpdateIndex,
        ],
    );
    assert(steps@ =~= session_turn_steps());
    Ok(begin(RunKind::SessionTurn, steps, out, Vec::new()))
}

/// A player turn: refused like a session turn, then with `character and
/// action required` when either is blank once trimmed; else it writes
/// [`turn_output`].
pub fn player_turn_run(
    campaign: &str,
    session_dir: &str,
    character: &str,
    action: &str,
    output_file: Option<&str>,
    entries: &Vec<String>,
) -> (r: Result<(Run, RunAction), ApiError>)
    requires
        name_ok(campaign@) && session_dir_ok(session_dir@) ==> turn_output_defined(opt_view(output_file), views(entries@)),
    ensures
        !name_ok(campaign@) ==> (r matches Err(ApiError::BadRequest(m)) && m@ == "invalid campaign name"@),
        name_ok(campaign@) && !session_dir_ok(session_dir@) ==> (r matches Err(ApiError::BadRequest(m))
            && m@ == "invalid session_dir"@),
        name_ok(campaign@) && session_dir_ok(session_dir@) && (trim(character@).len() == 0 || trim(action@).len() == 0)
            ==> (r matches Err(ApiError::BadRequest(m)) && m@ == "character and action required"@),
        name_ok(campaign@) && session_dir_ok(session_dir@) && trim(character@).len() > 0 && trim(action@).len() > 0
            ==> (r matches Ok((run, a)) && {
            &&& run.steps@ == player_turn_steps()
            &&& run.kind == RunKind::PlayerTurn
            &&& run.done == 0
            &&& run.wf()
            &&& run.output_file@ == turn_output(opt_view(output_file), views(entries@))
            &&& asks(a, action_at(player_turn_steps(), 0))
        }),
{
    if !safe_name(campaign) {
        return Err(bad_request("invalid campaign name"));
    }
    if !session_dir_valid(session_dir) {
        return Err(bad_request("invalid session_dir"));
    }
    if trim_chars(&to_chars(character)).len() == 0 || trim_chars(&to_chars(action)).len() == 0 {
        return Err(bad_request("character and action required"));
    }
    let out = turn_output_of(output_file, entries);
    let steps = steps_vec(
        &[
            Step::MetaHeader, Step::ReadGrounding, Step::FactCheck, Step::RulesAssess, Step::RollDice,
            Step::DmWrite, Step::WriteOutput, Step::Summarize, Step::UpdateIndex,
        ],
    );
    assert(steps@ =~= player_turn_steps());
    Ok(begin(RunKind::PlayerTurn, steps, out, Vec::new()))
}

/// What a client is told when its turn has started: the task, the
/// session and the file the turn is written to.
pub struct TurnAccepted {
    pub task_id: u128,
    pub session_dir: String,
    pub output_file: String,
}

/// The board name of a session turn: `📖 {campaign} / {session}`.
pub open spec fn session_turn_agent(campaign: Seq<char>, session: Seq<char>) -> Seq<char> {
    "📖 "@ + campaign + " / "@ + session
}

/// The board name of a player turn: `🎭 {campaign} / {session} / {character}`.
pub open spec fn player_turn_agent(campaign: Seq<char>, session: Seq<char>, character: Seq<char>) -> Seq<char> {
    "🎭 "@ + campaign + " / "@ + session + " / "@ + character
}

/// Starts a session turn on the board (in progress, submitted at `now`,
/// its intent marked `[turn]`) and answers with its task, session and
/// output file.
pub fn accept_session_turn<R>(
    board: &mut TaskBoard<R>,
    task_id: u128,
    instance_id: u128,
    campaign: &str,
    session_dir: &str,
    intent: &str,
    output_file: &str,
    now: i64,
) -> (r: TurnAccepted)
    ensures
        r.task_id == task_id,
        r.session_dir@ == session_dir@,
        r.output_file@ == output_file@,
        final(board).entries() == submitted(
            old(board).entries(),
            submitted_record::<R>(task_id, instance_id, session_turn_agent(campaign@, session_dir@), "[turn] "@ + intent@, now),
        ),
{
    let mut agent = owned("📖 ");
    push_str(&mut agent, campaign);
    push_str(&mut agent, " / ");
    push_str(&mut agent, session_dir);
    let mut marked = owned("[turn] ");
    push_str(&mut marked, intent);
    board.submit(task_id, instance_id, agent.as_str(), marked.as_str(), now);
    TurnAccepted { task_id, session_dir: owned(session_dir), output_file: owned(output_file) }
}

/// Starts a player turn on the board (its intent `[player] {character}:
/// {action}`) and answers like a session turn.
pub fn accept_player_turn<R>(
    board: &mut TaskBoard<R>,
    task_id: u128,
    instance_id: u128,
    campaign: &str,
    session_dir: &str,
    character: &str,
    action: &str,
    output_file: &str,
    now: i64,
) -> (r: TurnAccepted)
    ensures
        r.task_id == task_id,
        r.session_dir@ == session_dir@,
        r.output_file@ == output_file@,
        final(board).entries() == submitted(
            old(board).entries(),
            submitted_record::<R>(
                task_id,
                instance_id,
                player_turn_agent(campaign@, session_dir@, character@),
                "[player] "@ + character@ + ": "@ + action@,
                now,
            ),
        ),
{
    let mut agent = owned("🎭 ");
    push_str(&mut agent, campaign);
    push_str(&mut agent, " / ");
    push_str(&mut agent, session_dir);
    push_str(&mut agent, " / ");
    push_str(&mut agent, character);
    let mut marked = owned("[player] ");
    push_str(&mut marked, character);
    push_str(&mut marked, ": ");
    push_str(&mut marked, action);
    board.submit(task_id, instance_id, agent.as_str(), marked.as_str(), now);
    TurnAccepted { task_id, session_dir: owned(session_dir), output_file: owned(output_file) }
}

/// Think and run: refused with `invalid campaign name` for an unsafe name;
/// its result is the DM writer's task, so it writes no file of its own.
/// It keeps the intent, whose start stands in for a failed rules query.
pub fn think_run(campaign: &str, intent: &str) -> (r: Result<(Run, RunAction), ApiError>)
    ensures
        !name_ok(campaign@) ==> (r matches Err(ApiError::BadRequest(m)) && m@ == "invalid campaign name"@),
        name_ok(campaign@) ==> (r matches Ok((run, a)) && {
            &&& run.steps@ == think_steps()
            &&& run.kind == RunKind::Think
            &&& run.done == 0
            &&& run.wf()
            &&& run.output_file@.len() == 0
            &&& run.items@.len() == 1 && run.items@[0]@ == intent@
            &&& asks(a, action_at(think_steps(), 0))
        }),
{
    if !safe_name(campaign) {
        return Err(bad_request("invalid campaign name"));
    }
    let steps = steps_vec(
        &[
            Step::Think, Step::Critique, Step::RuleQuery, Step::SelectFiles, Step::ReadGrounding,
            Step::ListDice, Step::RollDice, Step::SummarizeAction, Step::DmWrite,
        ],
    );
    assert(steps@ =~= think_steps());
    proof {
        reveal_strlit("");
    }
    let out = owned("");
    let mut items: Vec<String> = Vec::new();
    items.push(owned(intent));
    Ok(begin(RunKind::Think, steps, out, items))
}

/// Where a eucatastrophe writes: `turn01_eucatastrophe.md` in the session
/// after the last one.
pub open spec fn eucatastrophe_output(last: Seq<char>) -> Seq<char> {
    euca_session(last) + "/turn01_eucatastrophe.md"@
}

/// A eucatastrophe over the campaign's session directories (sorted):
/// refused with `invalid name` for an unsafe campaign name, then with the
/// shortfall message when fewer than five sessions exist; else it writes
/// [`eucatastrophe_output`] of the last session.
pub fn eucatastrophe_run(campaign: &str, sessions: &Vec<String>) -> (r: Result<(Run, RunAction), ApiError>)
    requires
        name_ok(campaign@) && sessions@.len() >= 5 ==> next_session_defined(sessions@.last()@),
    ensures
        !name_ok(campaign@) ==> (r matches Err(ApiError::BadRequest(m)) && m@ == "invalid name"@),
        name_ok(campaign@) && sessions@.len() < 5 ==> (r matches Err(ApiError::BadRequest(m))
            && m@ == "Eucatastrophe requires 5+ completed sessions — found "@ + decimal(sessions@.len())),
        name_ok(campaign@) && sessions@.len() >= 5 ==> (r matches Ok((run, a)) && {
            &&& run.steps@ == eucatastrophe_steps()
            &&& run.kind == RunKind::Eucatastrophe
            &&& run.done == 0
            &&& run.wf()
            &&& run.output_file@ == eucatastrophe_output(sessions@.last()@)
            &&& asks(a, action_at(eucatastrophe_steps(), 0))
        }),
{
    if !safe_name(campaign) {
        return Err(bad_request("invalid name"));
    }
    if sessions.len() < 5 {
        return Err(ApiError::BadRequest(eucatastrophe_shortfall(sessions.len())));
    }
    let last = &sessions[sessions.len() - 1];
    let mut out = euca_session_name(last.as_str());
    push_str(&mut out, "/turn01_eucatastrophe.md");
    let steps = steps_vec(
        &[
            Step::MetaHeader, Step::ReadArchive, Step::ReadGrounding, Step::FactCheck, Step::Grace,
            Step::Skeleton, Step::DmWrite, Step::WriteOutput, Step::Summarize, Step::UpdateIndex,
        ],
    );
    assert(steps@ =~= eucatastrophe_steps());
    Ok(begin(RunKind::Eucatastrophe, steps, out, Vec::new()))
}

/// Where a grand opener writes: `turn01_opening.md` in the session after
/// the hook session.
pub open spec fn opener_output(hook: Seq<char>) -> Seq<char> {
    next_session(hook) + "/turn01_opening.md"@
}

/// A grand opener after `hook`: refused with `invalid name` when the
/// campaign name or the hook session is unsafe; else it writes
/// [`opener_output`].
pub fn grand_opener_run(campaign: &str, hook: &str) -> (r: Result<(Run, RunAction), ApiError>)
    requires
        name_ok(campaign@) && name_ok(hook@) ==> next_session_defined(hook@),
    ensures
        !name_ok(campaign@) || !name_ok(hook@) ==> (r matches Err(ApiError::BadRequest(m)) && m@ == "invalid name"@),
        name_ok(campaign@) && name_ok(hook@) ==> (r matches Ok((run, a)) && {
            &&& run.steps@ == opener_steps()
            &&& run.kind == RunKind::Opener
            &&& run.done == 0
            &&& run.wf()
            &&& run.output_file@ == opener_output(hook@)
            &&& asks(a, action_at(opener_steps(), 0))
        }),
{
    if !safe_name(campaign) || !safe_name(hook) {
        return Err(bad_request("invalid name"));
    }
    let mut out = next_session_name(hook);
    push_str(&mut out, "/turn01_opening.md");
    let steps = steps_vec(
        &[Step::MetaHeader, Step::ReadArchive, Step::Twist, Step::DmWrite, Step::WriteOutput, Step::UpdateIndex],
    );
    assert(steps@ =~= opener_steps());
    Ok(begin(RunKind::Opener, steps, out, Vec::new()))
}

/// The scene a scene opener opens: the requested name when not empty, else
/// one past the highest `scene{N}` directory of the session.
pub open spec fn opened_scene(requested: Option<Seq<char>>, dirs: Seq<Seq<char>>) -> Seq<char> {
    match requested {
        Some(s) if s.len() > 0 => s,
        _ => "scene"@ + decimal(max_scene(dirs) + 1),
    }
}

/// A scene opener in `session_dir`: refused with `invalid name` when the
/// campaign or the session name is unsafe; else it writes
/// `{session_dir}/{scene}/scene_opener.md`.
pub fn scene_opener_run(campaign: &str, session_dir: &str, scene: Option<&str>, dirs: &Vec<String>) -> (r: Result<(Run, RunAction), ApiError>)
    requires
        name_ok(campaign@) && name_ok(session_dir@) && !(opt_view(scene) matches Some(s) && s.len() > 0)
            ==> max_scene(views(dirs@)) < u32::MAX,
    ensures
        !(name_ok(campaign@) && name_ok(session_dir@)) ==> (r matches Err(ApiError::BadRequest(m)) && m@ == "invalid name"@),
        name_ok(campaign@) && name_ok(session_dir@) ==> (r matches Ok((run, a)) && {
            &&& run.steps@ == scene_opener_steps()
            &&& run.kind == RunKind::SceneOpener
            &&& run.done == 0
            &&& run.wf()
            &&& run.output_file@ == session_dir@ + "/"@ + opened_scene(opt_view(scene), views(dirs@))
                + "/scene_opener.md"@
            &&& asks(a, action_at(scene_opener_steps(), 0))
        }),
{
    if !safe_name(campaign) || !safe_name(session_dir) {
        return Err(bad_request("invalid name"));
    }
    let name = match scene {
        Some(s) => {
            if s.is_empty() {
                next_scene_name(dirs)
            } else {
                owned(s)
            }
        },
        None => next_scene_name(dirs),
    };
    let mut out = owned(session_dir);
    push_str(&mut out, "/");
    push_str(&mut out, name.as_str());
    push_str(&mut out, "/scene_opener.md");
    let steps = steps_vec(&[Step::MetaHeader, Step::ReadGrounding, Step::DmWrite, Step::WriteOutput]);
    assert(steps@ =~= scene_opener_steps());
    Ok(begin(RunKind::SceneOpener, steps, out, Vec::new()))
}

/// Which summary a run writes, and what it says when there is nothing to
/// summarize.
#[derive(Debug, Clone, Copy, PartialEq, Eq, Structural)]
pub enum SummaryKind {
    /// The session recap (`session_summary`) over the session's turn files.
    Session,
    /// The session recap over the summaries of the session's scenes, which
    /// stand as they are.
    SessionFromScenes,
    /// The task worker's scene summary.
    Scene,
    /// The older scene-summary endpoint.
    SceneLegacy,
}

/// The failure of a summary with no turn to work from.
pub open spec fn nothing_to_summarize(k: SummaryKind) -> Seq<char> {
    match k {
        SummaryKind::Session | SummaryKind::SessionFromScenes => "No turn files or scene summaries found in session dir"@,
        SummaryKind::Scene => "no turn logs"@,
        SummaryKind::SceneLegacy => "No turn log files found in .meta dir"@,
    }
}

fn condense_vec(n: usize) -> (r: Vec<Step>)
    ensures
        r@ == condense_steps(n as nat),
{
    let mut r: Vec<Step> = Vec::new();
    let mut i: usize = 0;
    while i < n
        invariant
            i <= n,
            r@ == condense_steps(i as nat),
        decreases n - i,
    {
        r.push(Step::Condense(i));
        i += 1;
    }
    r
}

/// A summary over the turn logs `items`, written to `output_file`: it
/// fails with [`nothing_to_summarize`] when there is no turn; else it
/// condenses each turn once, in order, then synthesizes once.
pub fn summary_run(kind: SummaryKind, output_file: &str, items: &Vec<String>) -> (r: Result<(Run, RunAction), String>)
    ensures
        items@.len() == 0 ==> (r matches Err(m) && m@ == nothing_to_summarize(kind)),
        items@.len() > 0 ==> (r matches Ok((run, a)) && {
            &&& run.steps@ == summary_steps(items@.len())
            &&& run.kind == RunKind::Summary(kind)
            &&& run.done == 0
            &&& run.wf()
            &&& run.output_file@ == output_file@
            &&& views(run.items@) == views(items@)
            &&& asks(a, action_at(summary_steps(items@.len()), 0))
        }),
{
    if items.len() == 0 {
        let m = match kind {
            SummaryKind::Session | SummaryKind::SessionFromScenes => owned(
                "No turn files or scene summaries found in session dir",
            ),
            SummaryKind::Scene => owned("no turn logs"),
            SummaryKind::SceneLegacy => owned("No turn log files found in .meta dir"),
        };
        return Err(m);
    }
    let mut steps = steps_vec(&[Step::MetaHeader, Step::ReadArchive]);
    let c = condense_vec(items.len());
    let mut i: usize = 0;
    let ghost s0 = steps@;
    while i < c.len()
        invariant
            i <= c@.len(),
            steps@ == s0 + c@.take(i as int),
        decreases c@.len() - i,
    {
        steps.push(c[i]);
        assert(c@.take(i + 1) =~= c@.take(i as int).push(c@[i as int]));
        i += 1;
    }
    assert(c@.take(c@.len() as int) =~= c@);
    steps.push(Step::Synthesize);
    steps.push(Step::WriteOutput);
    steps.push(Step::UpdateIndex);
    assert(steps@ =~= summary_steps(items@.len()));
    Ok(begin(RunKind::Summary(kind), steps, owned(output_file), copy_strings_of(items)))
}

/// Whether a summary request names only safe directories: the session
/// recap checks the campaign and the session, the scene summary also the
/// scene; the older scene-summary endpoint checks nothing.
pub open spec fn summary_names_ok(kind: SummaryKind, campaign: Seq<char>, session: Seq<char>, scene: Seq<char>) -> bool {
    match kind {
        SummaryKind::Session | SummaryKind::SessionFromScenes => name_ok(campaign) && name_ok(session),
        SummaryKind::Scene => name_ok(campaign) && name_ok(session) && name_ok(scene),
        SummaryKind::SceneLegacy => true,
    }
}

/// The first check of a summary request: refused with `invalid name` when
/// a directory it names is unsafe (see [`summary_names_ok`]).
pub fn check_summary_names(kind: SummaryKind, campaign: &str, session_dir: &str, scene_dir: &str) -> (r: Result<(), ApiError>)
    ensures
        summary_names_ok(kind, campaign@, session_dir@, scene_dir@) ==> r is Ok,
        !summary_names_ok(kind, campaign@, session_dir@, scene_dir@) ==> (r matches Err(ApiError::BadRequest(m))
            && m@ == "invalid name"@),
{
    let ok = match kind {
        SummaryKind::Session | SummaryKind::SessionFromScenes => safe_name(campaign) && safe_name(session_dir),
        SummaryKind::Scene => safe_name(campaign) && safe_name(session_dir) && safe_name(scene_dir),
        SummaryKind::SceneLegacy => true,
    };
    if ok {
        Ok(())
    } else {
        Err(bad_request("invalid name"))
    }
}

/// The condenser's instructions for one turn log.
pub open spec fn condense_system_text() -> Seq<char> {
    "Condense this TTRPG turn log into 1-2 past-tense sentences: who acted, what ability was rolled, whether it succeeded or failed, and what changed. Use only names from the What Happened section. No prose flourishes."@
}

pub fn condense_system() -> (r: &'static str)
    ensures
        r@ == condense_system_text(),
{
    "Condense this TTRPG turn log into 1-2 past-tense sentences: who acted, what ability was rolled, whether it succeeded or failed, and what changed. Use only names from the What Happened section. No prose flourishes."
}

/// The condenser's input: the log's name and its first 2000 characters.
pub open spec fn condense_user_text(name: Seq<char>, log: Seq<char>) -> Seq<char> {
    "Turn log: "@ + name + "\n\n"@ + take_chars(log, 2000)
}

pub fn condense_user(name: &str, log: &str) -> (r: String)
    ensures
        r@ == condense_user_text(name@, log@),
{
    let mut r = owned("Turn log: ");
    push_str(&mut r, name);
    push_str(&mut r, "\n\n");
    let head = take_prefix(log, 2000);
    push_str(&mut r, head.as_str());
    r
}

/// The name a condensed turn is listed under: its log's name with every
/// `.log` made `.md`.
pub fn condensed_label(log_name: &str) -> (r: String)
    ensures
        r@ == replace_all(log_name@, ".log"@, ".md"@),
{
    proof {
        reveal_strlit(".log");
    }
    replace_str(log_name, ".log", ".md")
}

/// The scene writer's instructions for the recap.
pub open spec fn scene_synthesis_system_text() -> Seq<char> {
    "Write 2-4 sentences of past-tense prose summarising this TTRPG scene from the turn facts given. Rules: use character names exactly as given; do not add events not in the input; if a dice roll is mentioned name the ability and outcome; no invented atmosphere. Output only the prose."@
}

pub fn scene_synthesis_system() -> (r: &'static str)
    ensures
        r@ == scene_synthesis_system_text(),
{
    "Write 2-4 sentences of past-tense prose summarising this TTRPG scene from the turn facts given. Rules: use character names exactly as given; do not add events not in the input; if a dice roll is mentioned name the ability and outcome; no invented atmosphere. Output only the prose."
}

/// The scene writer's input: where the scene is and its condensed turns.
pub open spec fn scene_synthesis_user_text(campaign: Seq<char>, session: Seq<char>, scene: Seq<char>, facts: Seq<char>) -> Seq<char> {
    "Campaign: "@ + campaign + "\nScene: "@ + session + "/"@ + scene + "\n\nTurn facts:\n"@ + facts
}

pub fn scene_synthesis_user(campaign: &str, session: &str, scene: &str, facts: &str) -> (r: String)
    ensures
        r@ == scene_synthesis_user_text(campaign@, session@, scene@, facts@),
{
    let mut r = owned("Campaign: ");
    push_str(&mut r, campaign);
    push_str(&mut r, "\nScene: ");
    push_str(&mut r, session);
    push_str(&mut r, "/");
    push_str(&mut r, scene);
    push_str(&mut r, "\n\nTurn facts:\n");
    push_str(&mut r, facts);
    r
}

/// Where a scene's output is reported: `{session}/{scene}/{file}`.
pub open spec fn scene_output_path_text(session: Seq<char>, scene: Seq<char>, file: Seq<char>) -> Seq<char> {
    session + "/"@ + scene + "/"@ + file
}

/// The path the scene pipeline and the scene summary report as their
/// output when they complete.
pub fn scene_output_path(session: &str, scene: &str, file: &str) -> (r: String)
    ensures
        r@ == scene_output_path_text(session@, scene@, file@),
{
    let mut r = owned(session);
    push_str(&mut r, "/");
    push_str(&mut r, scene);
    push_str(&mut r, "/");
    push_str(&mut r, file);
    r
}

/// A summary condenses each turn exactly once and in order: step `2 + i`
/// condenses turn `i`, and the synthesis follows the last of them.
pub proof fn law_summary_condenses_each_turn_once(n: nat, i: int)
    requires
        0 <= i < n,
        n <= usize::MAX,
    ensures
        summary_steps(n)[2 + i] == Step::Condense(i as usize),
        summary_steps(n)[2 + n as int] == Step::Synthesize,
        summary_steps(n).len() == n + 5,
        forall|j: int| 0 <= j < summary_steps(n).len() && j != 2 + i ==> summary_steps(n)[j] != Step::Condense(i as usize),
{
    lemma_condense_steps(n);
    let s = summary_steps(n);
    let c = condense_steps(n);
    assert(s[2 + i] == c[i]);
    assert(s[2 + n as int] == Step::Synthesize);
    assert forall|j: int| 0 <= j < s.len() && j != 2 + i implies s[j] != Step::Condense(i as usize) by {
        if 2 <= j < 2 + n {
            assert(s[j] == c[j - 2]);
            assert(c[j - 2] == Step::Condense((j - 2) as usize));
        }
    }
}

proof fn lemma_condense_steps(n: nat)
    ensures
        condense_steps(n).len() == n,
        forall|i: int| 0 <= i < n ==> #[trigger] condense_steps(n)[i] == Step::Condense(i as usize),
    decreases n,
{
    if n > 0 {
        lemma_condense_steps((n - 1) as nat);
    }
}


/// Whether the condition tracker's reply holds a `CONDITION|` line, which
/// the scene pipeline merges into the party state (its `ApplyImpact` step
/// changes nothing otherwise).
pub open spec fn has_condition_line(reply: Seq<char>) -> bool {
    exists|i: int| 0 <= i < lines(reply).len() && starts_with(#[trigger] lines(reply)[i], "CONDITION|"@)
}

pub fn impact_has_condition(reply: &str) -> (r: bool)
    ensures
        r == has_condition_line(reply@),
{
    let v = to_chars(reply);
    let ls = lines_chars(&v);
    let ghost all = deep(ls@);
    let mut i: usize = 0;
    while i < ls.len()
        invariant
            i <= ls@.len(),
            all == deep(ls@),
            all == lines(reply@),
            forall|k: int| 0 <= k < i ==> !starts_with(#[trigger] all[k], "CONDITION|"@),
        decreases ls@.len() - i,
    {
        assert(all[i as int] == ls@[i as int]@);
        if strip_prefix_chars(&ls[i], "CONDITION|").is_some() {
            return true;
        }
        i += 1;
    }
    false
}

} // verus!
