//! What each step of a campaign run asks the model: the request a run hands
//! out for the step it is at, built from the run's inputs (what the caller
//! read from the campaign) and the replies of its earlier steps, in the
//! words the run has always used.
use vstd::prelude::*;

use crate::index::{extract_logged_summary, logged_summary};
use crate::planner::{moment_line, moment_of};
use crate::prompts::{
    action_summary_system, action_summary_system_text, action_summary_user, action_summary_user_text, beat_system, beat_system_text, beat_user, beat_user_text, critic_user, critic_user_text, dice_list_system, dice_list_system_text, dice_list_user, dice_list_user_text, dm_respond_system, dm_respond_system_text, euca_fact_check_system, euca_fact_check_system_text, euca_fact_check_user, euca_fact_check_user_text, euca_prose_system, euca_prose_system_text, euca_prose_user, euca_prose_user_text, euca_summary_system, euca_summary_system_text, file_selection_system, file_selection_system_text, file_selection_user, file_selection_user_text, grace_system, grace_system_text, grace_user, grace_user_text, legacy_condense_system, legacy_condense_system_text, legacy_record_system, legacy_record_system_text, opener_dm_system, opener_dm_system_text, opening_user, opening_user_text, player_dm_user, player_dm_user_text, player_fact_check_system, player_fact_check_system_text, player_fact_check_user, player_fact_check_user_text, player_rules_system, player_rules_system_text, player_rules_user, player_rules_user_text, player_summarize_system, player_summarize_system_text, rule_query_system, rule_query_system_text, rule_query_user, rule_query_user_text, scene_opener_system, scene_opener_system_text, scene_opener_user, scene_opener_user_text, session_condense_system, session_condense_system_text, session_condense_user, session_condense_user_text, session_dm_system, session_dm_system_text, session_dm_user, session_dm_user_text, session_fact_check_system, session_fact_check_system_text, session_fact_check_user, session_fact_check_user_text, session_record_system, session_record_system_text, session_record_user, session_record_user_text, session_rules_system, session_rules_system_text, session_rules_user, session_rules_user_text, session_summarize_system, session_summarize_system_text, session_thinker_system, session_thinker_system_text, think_critic_system, think_critic_system_text, think_dm_system, think_dm_system_text, think_dm_task, think_dm_task_text, think_thinker_system, think_thinker_system_text, thinker_user, thinker_user_text, twist_system, twist_system_text, twist_user, twist_user_text,
};
use crate::runs::{
    condense_system, condense_system_text, condense_user, condense_user_text, condensed_label, scene_synthesis_system,
    scene_synthesis_system_text, scene_synthesis_user, scene_synthesis_user_text, Run, RunKind, Step, SummaryKind,
};
use crate::session::{condensed, condensed_summaries, file_views};
use crate::specialists::{summarize_user, summarize_user_text};
use crate::text::{owned, push_str, replace_all, take_chars, take_prefix, to_chars, views};

verus! {

/// A request to the model: its instructions, what it reads, and how many
/// tokens it may write. `max_tokens` is `None` where the run hands its DM
/// agent a task (think-and-run's writer) rather than asking the model once.
pub struct ModelRequest {
    pub system: String,
    pub user: String,
    pub max_tokens: Option<u32>,
}

/// The `i`-th text, or nothing past the end.
pub open spec fn at(xs: Seq<Seq<char>>, i: int) -> Seq<char> {
    if 0 <= i < xs.len() { xs[i] } else { Seq::empty() }
}

/// The definition's system prompt, else the run's own.
pub open spec fn system_or(given: Option<Seq<char>>, own: Seq<char>) -> Seq<char> {
    match given {
        Some(s) => s,
        None => own,
    }
}

/// The dice section a think-and-run adds to its tool context.
pub open spec fn dice_section(summary: Seq<char>) -> Seq<char> {
    "\n\n=== DICE RESULTS ===\n"@ + summary
}

/// The name a condensed item is listed under in a recap.
pub open spec fn summary_label(k: SummaryKind, name: Seq<char>) -> Seq<char> {
    match k {
        SummaryKind::Scene | SummaryKind::SceneLegacy => replace_all(name, ".log"@, ".md"@),
        _ => name,
    }
}

/// Whether the scene summary of the task worker passes over an item: it
/// skips an empty log.
pub open spec fn skips_item(k: SummaryKind, text: Seq<char>) -> bool {
    k == SummaryKind::Scene && text.len() == 0
}

/// The condensed items a recap is written from: each item's label and the
/// reply of its condensing step, in order, the skipped ones left out. An
/// item's text is input `3 + i`.
pub open spec fn summary_pairs(
    k: SummaryKind,
    items: Seq<Seq<char>>,
    inputs: Seq<Seq<char>>,
    replies: Seq<Seq<char>>,
    n: nat,
) -> Seq<(Seq<char>, Seq<char>)>
    decreases n,
{
    if n == 0 {
        Seq::empty()
    } else {
        let i = n - 1;
        let p = summary_pairs(k, items, inputs, replies, i as nat);
        if skips_item(k, at(inputs, 3 + i)) {
            p
        } else {
            p.push((summary_label(k, at(items, i)), at(replies, 2 + i)))
        }
    }
}

/// What a summary's condensing step asks, if anything: the scene-based
/// session recap takes each scene's summary as it is, and the scene
/// summaries take a log's own summary line when it has one (and skip an
/// empty log of the task worker).
pub open spec fn condense_request(k: SummaryKind, name: Seq<char>, text: Seq<char>) -> Option<(Seq<char>, Seq<char>, Option<u32>)> {
    match k {
        SummaryKind::Session => Some((session_condense_system_text(), session_condense_user_text(name, text), Some(256u32))),
        SummaryKind::SessionFromScenes => None,
        SummaryKind::Scene => if text.len() == 0 || logged_summary(text) is Some {
            None
        } else {
            Some((condense_system_text(), condense_user_text(name, text), Some(150u32)))
        },
        SummaryKind::SceneLegacy => if logged_summary(text) is Some {
            None
        } else {
            Some((legacy_condense_system_text(), condense_user_text(name, text), Some(150u32)))
        },
    }
}

/// What a summary's synthesis asks.
pub open spec fn synthesis_request(k: SummaryKind, inputs: Seq<Seq<char>>, facts: Seq<char>) -> (Seq<char>, Seq<char>, Option<u32>) {
    match k {
        SummaryKind::Session | SummaryKind::SessionFromScenes => (
            session_record_system_text(),
            session_record_user_text(at(inputs, 0), at(inputs, 1), facts),
            Some(600u32),
        ),
        SummaryKind::Scene => (
            scene_synthesis_system_text(),
            scene_synthesis_user_text(at(inputs, 0), at(inputs, 1), at(inputs, 2), facts),
            Some(400u32),
        ),
        SummaryKind::SceneLegacy => (
            legacy_record_system_text(),
            scene_synthesis_user_text(at(inputs, 0), at(inputs, 1), at(inputs, 2), facts),
            Some(300u32),
        ),
    }
}

/// What step `s` of a run asks the model, from the run's `items`, its
/// `inputs`, the `replies` of its earlier steps (by step position) and the
/// definition's system prompt `dm`. The inputs are, by run:
/// - think-and-run: campaign, intent, campaign facts, the files on offer;
///   its grounding step's reply is the tool context so far (rules and
///   campaign-file sections), its dice step's the dice summary;
/// - session turn: campaign, intent, campaign facts, the rules files;
/// - player turn: campaign, character, action, campaign facts, the party
///   sheet, the dice rules;
/// - eucatastrophe: campaign (its archive step's reply is the session
///   archive, its grounding step's the NPC file);
/// - grand opener: campaign, hook session, next session (its archive
///   step's reply is the hook material);
/// - scene opener: campaign, session, scene (its grounding step's reply is
///   the context from prior play);
/// - summaries: campaign, session, scene, then each item's text.
/// The scene pipeline's steps are sub-tasks whose requests the specialists
/// build, so it asks nothing here; neither do the steps that only read,
/// roll or write.
pub open spec fn request_of(
    kind: RunKind,
    s: Step,
    items: Seq<Seq<char>>,
    inputs: Seq<Seq<char>>,
    replies: Seq<Seq<char>>,
    dm: Option<Seq<char>>,
) -> Option<(Seq<char>, Seq<char>, Option<u32>)> {
    let r = |i: int| at(replies, i);
    let x = |i: int| at(inputs, i);
    match kind {
        RunKind::Think => match s {
            Step::Think => Some((think_thinker_system_text(), thinker_user_text(x(2), x(1)), Some(512u32))),
            Step::Critique => Some((think_critic_system_text(), critic_user_text(x(1), r(0)), Some(512u32))),
            Step::RuleQuery => Some((rule_query_system_text(), rule_query_user_text(x(1), r(0), r(1)), Some(512u32))),
            Step::SelectFiles => Some((file_selection_system_text(), file_selection_user_text(x(1), r(0), x(3)), Some(512u32))),
            Step::ListDice => Some((dice_list_system_text(), dice_list_user_text(x(1), r(0), r(4)), Some(512u32))),
            Step::SummarizeAction => Some((
                action_summary_system_text(),
                action_summary_user_text(x(1), r(0), r(1), r(4) + dice_section(r(6))),
                Some(512u32),
            )),
            Step::DmWrite => Some((
                system_or(dm, think_dm_system_text(x(0))),
                think_dm_task_text(x(2), x(1), r(4) + dice_section(r(6)), r(7)),
                None,
            )),
            _ => None,
        },
        RunKind::SessionTurn => match s {
            Step::Think => Some((session_thinker_system_text(), thinker_user_text(x(2), x(1)), Some(512u32))),
            Step::FactCheck => Some((session_fact_check_system_text(), session_fact_check_user_text(x(1), r(2)), Some(512u32))),
            Step::RulesAssess => Some((session_rules_system_text(), session_rules_user_text(x(1), r(3), x(3)), Some(512u32))),
            Step::DmWrite => Some((
                system_or(dm, session_dm_system_text(x(0))),
                session_dm_user_text(x(2), r(3), r(5), x(1)),
                Some(512u32),
            )),
            Step::Summarize => Some((session_summarize_system_text(), take_chars(r(7), 2000), Some(512u32))),
            _ => None,
        },
        RunKind::PlayerTurn => match s {
            Step::FactCheck => Some((player_fact_check_system_text(), player_fact_check_user_text(x(1), x(2), r(1)), Some(512u32))),
            Step::RulesAssess => Some((player_rules_system_text(), player_rules_user_text(x(1), x(2), x(4), x(5)), Some(512u32))),
            Step::DmWrite => Some((
                system_or(dm, dm_respond_system_text(x(0))),
                player_dm_user_text(x(3), r(2), r(4), x(1), x(2)),
                Some(512u32),
            )),
            Step::Summarize => Some((player_summarize_system_text(), summarize_user_text(x(1), r(6)), Some(512u32))),
            _ => None,
        },
        RunKind::Eucatastrophe => match s {
            Step::FactCheck => Some((euca_fact_check_system_text(), euca_fact_check_user_text(x(0), r(2), r(1)), Some(800u32))),
            Step::Grace => Some((grace_system_text(), grace_user_text(x(0), r(3), r(1)), Some(400u32))),
            Step::Skeleton => Some((beat_system_text(), beat_user_text(moment_of(r(4)), r(3)), Some(150u32))),
            Step::DmWrite => Some((euca_prose_system_text(), euca_prose_user_text(x(0), r(5), r(3)), Some(800u32))),
            Step::Summarize => Some((euca_summary_system_text(), take_chars(r(7), 2000), Some(80u32))),
            _ => None,
        },
        RunKind::Opener => match s {
            Step::Twist => Some((twist_system_text(), twist_user_text(x(0), x(1), r(1)), Some(300u32))),
            Step::DmWrite => Some((
                system_or(dm, opener_dm_system_text(x(0))),
                opening_user_text(x(2), x(0), r(1), r(2)),
                Some(900u32),
            )),
            _ => None,
        },
        RunKind::SceneOpener => match s {
            Step::DmWrite => Some((scene_opener_system_text(x(0)), scene_opener_user_text(x(0), x(1), x(2), r(1)), Some(1200u32))),
            _ => None,
        },
        RunKind::Summary(k) => match s {
            Step::Condense(i) => condense_request(k, at(items, i as int), at(inputs, 3 + i)),
            Step::Synthesize => Some(synthesis_request(k, inputs, condensed(summary_pairs(k, items, inputs, replies, items.len())))),
            _ => None,
        },
        RunKind::Scene => None,
    }
}

pub open spec fn opt_str(o: Option<&str>) -> Option<Seq<char>> {
    match o {
        Some(s) => Some(s@),
        None => None,
    }
}

pub open spec fn request_view(q: ModelRequest) -> (Seq<char>, Seq<char>, Option<u32>) {
    (q.system@, q.user@, q.max_tokens)
}

/// The `i`-th string, or the empty one past the end.
pub fn at_str(v: &Vec<String>, i: usize) -> (r: &str)
    ensures
        r@ == at(views(v@), i as int),
{
    if i < v.len() {
        assert(views(v@)[i as int] == v@[i as int]@);
        v[i].as_str()
    } else {
        proof {
            reveal_strlit("");
        }
        ""
    }
}

fn at_from(v: &Vec<String>, base: usize, i: usize) -> (r: &str)
    ensures
        r@ == at(views(v@), base + i),
{
    if i < v.len() && base < v.len() - i {
        assert(views(v@)[base + i] == v@[base + i]@);
        v[base + i].as_str()
    } else {
        proof {
            reveal_strlit("");
        }
        ""
    }
}

fn concat(a: &str, b: &str) -> (r: String)
    ensures
        r@ == a@ + b@,
{
    let mut r = owned(a);
    push_str(&mut r, b);
    r
}

fn with_dice(context: &str, dice: &str) -> (r: String)
    ensures
        r@ == context@ + dice_section(dice@),
{
    let mut r = owned(context);
    push_str(&mut r, "\n\n=== DICE RESULTS ===\n");
    push_str(&mut r, dice);
    r
}

fn system_of(dm: Option<&str>, own: String) -> (r: String)
    ensures
        r@ == system_or(opt_str(dm), own@),
{
    match dm {
        Some(s) => owned(s),
        None => own,
    }
}

fn ask(system: String, user: String, max_tokens: Option<u32>) -> (r: Option<ModelRequest>)
    ensures
        r matches Some(q) && q.system@ == system@ && q.user@ == user@ && q.max_tokens == max_tokens,
{
    Some(ModelRequest { system, user, max_tokens })
}

fn label_of(k: SummaryKind, name: &str) -> (r: String)
    ensures
        r@ == summary_label(k, name@),
{
    match k {
        SummaryKind::Scene | SummaryKind::SceneLegacy => condensed_label(name),
        _ => owned(name),
    }
}

fn synthesis_facts(k: SummaryKind, items: &Vec<String>, inputs: &Vec<String>, replies: &Vec<String>) -> (r: String)
    ensures
        r@ == condensed(summary_pairs(k, views(items@), views(inputs@), views(replies@), items@.len())),
{
    let ghost it = views(items@);
    let ghost xs = views(inputs@);
    let ghost rs = views(replies@);
    let mut pairs: Vec<(String, String)> = Vec::new();
    let mut i: usize = 0;
    while i < items.len()
        invariant
            i <= items.len(),
            it == views(items@),
            xs == views(inputs@),
            rs == views(replies@),
            file_views(pairs@) == summary_pairs(k, it, xs, rs, i as nat),
        decreases items.len() - i,
    {
        let text = at_from(inputs, 3, i);
        let skip = match k {
            SummaryKind::Scene => to_chars(text).len() == 0,
            _ => false,
        };
        if !skip {
            let name = at_str(items, i);
            let label = label_of(k, name);
            let reply = owned(at_from(replies, 2, i));
            let ghost before = pairs@;
            pairs.push((label, reply));
            assert(file_views(pairs@) =~= file_views(before).push((label@, reply@)));
        }
        i += 1;
    }
    condensed_summaries(&pairs)
}

/// What a step yields without asking the model, where the run takes
/// something as it is: the scene-based session recap takes each scene's
/// summary, and the scene summaries take a log's own summary line (an empty
/// log of the task worker yields nothing).
pub open spec fn reply_without_model(kind: RunKind, s: Step, inputs: Seq<Seq<char>>) -> Option<Seq<char>> {
    match (kind, s) {
        (RunKind::Summary(SummaryKind::SessionFromScenes), Step::Condense(i)) => Some(at(inputs, 3 + i)),
        (RunKind::Summary(SummaryKind::Scene), Step::Condense(i)) => if at(inputs, 3 + i).len() == 0 {
            Some(Seq::empty())
        } else {
            logged_summary(at(inputs, 3 + i))
        },
        (RunKind::Summary(SummaryKind::SceneLegacy), Step::Condense(i)) => logged_summary(at(inputs, 3 + i)),
        _ => None,
    }
}

pub fn local_reply(run: &Run, inputs: &Vec<String>) -> (r: Option<String>)
    ensures
        run.done < run.steps@.len() ==> match r {
            Some(t) => reply_without_model(run.kind, run.steps@[run.done as int], views(inputs@)) == Some(t@),
            None => reply_without_model(run.kind, run.steps@[run.done as int], views(inputs@)) is None,
        },
        run.done >= run.steps@.len() ==> r is None,
{
    if run.done >= run.steps.len() {
        return None;
    }
    match (run.kind, run.steps[run.done]) {
        (RunKind::Summary(SummaryKind::SessionFromScenes), Step::Condense(i)) => Some(owned(at_from(inputs, 3, i))),
        (RunKind::Summary(SummaryKind::Scene), Step::Condense(i)) => {
            let text = at_from(inputs, 3, i);
            if to_chars(text).len() == 0 {
                proof {
                    reveal_strlit("");
                }
                Some(owned(""))
            } else {
                extract_logged_summary(text)
            }
        },
        (RunKind::Summary(SummaryKind::SceneLegacy), Step::Condense(i)) => extract_logged_summary(at_from(inputs, 3, i)),
        _ => None,
    }
}

/// The request a run hands out for the step it is at (see [`request_of`]);
/// `None` when that step asks the model nothing, or the run is done.
pub fn request_for(run: &Run, inputs: &Vec<String>, dm: Option<&str>) -> (r: Option<ModelRequest>)
    ensures
        run.done < run.steps@.len() ==> match r {
            Some(q) => request_of(
                run.kind,
                run.steps@[run.done as int],
                views(run.items@),
                views(inputs@),
                views(run.replies@),
                opt_str(dm),
            ) == Some(request_view(q)),
            None => request_of(
                run.kind,
                run.steps@[run.done as int],
                views(run.items@),
                views(inputs@),
                views(run.replies@),
                opt_str(dm),
            ) is None,
        },
        run.done >= run.steps@.len() ==> r is None,
{
    if run.done >= run.steps.len() {
        return None;
    }
    let s = run.steps[run.done];
    let x = inputs;
    let rp = &run.replies;
    match run.kind {
        RunKind::Think => match s {
            Step::Think => ask(owned(think_thinker_system()), thinker_user(at_str(x, 2), at_str(x, 1)), Some(512)),
            Step::Critique => ask(owned(think_critic_system()), critic_user(at_str(x, 1), at_str(rp, 0)), Some(512)),
            Step::RuleQuery => ask(
                owned(rule_query_system()),
                rule_query_user(at_str(x, 1), at_str(rp, 0), at_str(rp, 1)),
                Some(512),
            ),
            Step::SelectFiles => ask(
                owned(file_selection_system()),
                file_selection_user(at_str(x, 1), at_str(rp, 0), at_str(x, 3)),
                Some(512),
            ),
            Step::ListDice => ask(
                owned(dice_list_system()),
                dice_list_user(at_str(x, 1), at_str(rp, 0), at_str(rp, 4)),
                Some(512),
            ),
            Step::SummarizeAction => {
                let ctx = with_dice(at_str(rp, 4), at_str(rp, 6));
                ask(
                    owned(action_summary_system()),
                    action_summary_user(at_str(x, 1), at_str(rp, 0), at_str(rp, 1), ctx.as_str()),
                    Some(512),
                )
            },
            Step::DmWrite => {
                let ctx = with_dice(at_str(rp, 4), at_str(rp, 6));
                let sys = system_of(dm, think_dm_system(at_str(x, 0)));
                ask(sys, think_dm_task(at_str(x, 2), at_str(x, 1), ctx.as_str(), at_str(rp, 7)), None)
            },
            _ => None,
        },
        RunKind::SessionTurn => match s {
            Step::Think => ask(owned(session_thinker_system()), thinker_user(at_str(x, 2), at_str(x, 1)), Some(512)),
            Step::FactCheck => ask(
                owned(session_fact_check_system()),
                session_fact_check_user(at_str(x, 1), at_str(rp, 2)),
                Some(512),
            ),
            Step::RulesAssess => ask(
                owned(session_rules_system()),
                session_rules_user(at_str(x, 1), at_str(rp, 3), at_str(x, 3)),
                Some(512),
            ),
            Step::DmWrite => {
                let sys = system_of(dm, session_dm_system(at_str(x, 0)));
                ask(sys, session_dm_user(at_str(x, 2), at_str(rp, 3), at_str(rp, 5), at_str(x, 1)), Some(512))
            },
            Step::Summarize => ask(owned(session_summarize_system()), take_prefix(at_str(rp, 7), 2000), Some(512)),
            _ => None,
        },
        RunKind::PlayerTurn => match s {
            Step::FactCheck => ask(
                owned(player_fact_check_system()),
                player_fact_check_user(at_str(x, 1), at_str(x, 2), at_str(rp, 1)),
                Some(512),
            ),
            Step::RulesAssess => ask(
                owned(player_rules_system()),
                player_rules_user(at_str(x, 1), at_str(x, 2), at_str(x, 4), at_str(x, 5)),
                Some(512),
            ),
            Step::DmWrite => {
                let sys = system_of(dm, dm_respond_system(at_str(x, 0)));
                ask(
                    sys,
                    player_dm_user(at_str(x, 3), at_str(rp, 2), at_str(rp, 4), at_str(x, 1), at_str(x, 2)),
                    Some(512),
                )
            },
            Step::Summarize => ask(owned(player_summarize_system()), summarize_user(at_str(x, 1), at_str(rp, 6)), Some(512)),
            _ => None,
        },
        RunKind::Eucatastrophe => match s {
            Step::FactCheck => ask(
                owned(euca_fact_check_system()),
                euca_fact_check_user(at_str(x, 0), at_str(rp, 2), at_str(rp, 1)),
                Some(800),
            ),
            Step::Grace => ask(owned(grace_system()), grace_user(at_str(x, 0), at_str(rp, 3), at_str(rp, 1)), Some(400)),
            Step::Skeleton => {
                let m = moment_line(at_str(rp, 4));
                ask(owned(beat_system()), beat_user(m.as_str(), at_str(rp, 3)), Some(150))
            },
            Step::DmWrite => ask(
                owned(euca_prose_system()),
                euca_prose_user(at_str(x, 0), at_str(rp, 5), at_str(rp, 3)),
                Some(800),
            ),
            Step::Summarize => ask(owned(euca_summary_system()), take_prefix(at_str(rp, 7), 2000), Some(80)),
            _ => None,
        },
        RunKind::Opener => match s {
            Step::Twist => ask(owned(twist_system()), twist_user(at_str(x, 0), at_str(x, 1), at_str(rp, 1)), Some(300)),
            Step::DmWrite => {
                let sys = system_of(dm, opener_dm_system(at_str(x, 0)));
                ask(sys, opening_user(at_str(x, 2), at_str(x, 0), at_str(rp, 1), at_str(rp, 2)), Some(900))
            },
            _ => None,
        },
        RunKind::SceneOpener => match s {
            Step::DmWrite => ask(
                scene_opener_system(at_str(x, 0)),
                scene_opener_user(at_str(x, 0), at_str(x, 1), at_str(x, 2), at_str(rp, 1)),
                Some(1200),
            ),
            _ => None,
        },
        RunKind::Summary(k) => match s {
            Step::Condense(i) => {
                let name = at_str(&run.items, i);
                let text = at_from(x, 3, i);
                match k {
                    SummaryKind::Session => ask(owned(session_condense_system()), session_condense_user(name, text), Some(256)),
                    SummaryKind::SessionFromScenes => None,
                    SummaryKind::Scene => if to_chars(text).len() == 0 || extract_logged_summary(text).is_some() {
                        None
                    } else {
                        ask(owned(condense_system()), condense_user(name, text), Some(150))
                    },
                    SummaryKind::SceneLegacy => if extract_logged_summary(text).is_some() {
                        None
                    } else {
                        ask(owned(legacy_condense_system()), condense_user(name, text), Some(150))
                    },
                }
            },
            Step::Synthesize => {
                let facts = synthesis_facts(k, &run.items, x, rp);
                match k {
                    SummaryKind::Session | SummaryKind::SessionFromScenes => ask(
                        owned(session_record_system()),
                        session_record_user(at_str(x, 0), at_str(x, 1), facts.as_str()),
                        Some(600),
                    ),
                    SummaryKind::Scene => ask(
                        owned(scene_synthesis_system()),
                        scene_synthesis_user(at_str(x, 0), at_str(x, 1), at_str(x, 2), facts.as_str()),
                        Some(400),
                    ),
                    SummaryKind::SceneLegacy => ask(
                        owned(legacy_record_system()),
                        scene_synthesis_user(at_str(x, 0), at_str(x, 1), at_str(x, 2), facts.as_str()),
                        Some(300),
                    ),
                }
            },
            _ => None,
        },
        RunKind::Scene => None,
    }
}

} // verus!
