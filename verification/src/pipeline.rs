//! Deterministic steps of the scene-turn pipeline: clipping payloads,
//! naming turn files, assembling campaign facts and grounding blocks.
use vstd::prelude::*;

use crate::text::{
    decimal, decimal_chars, ends_with, join, join_strings, lemma_views_push, owned, parse_u32,
    parse_u32_chars, push_chars, push_str, starts_with, strip_prefix_chars, sub_chars, take_chars,
    take_prefix, to_chars, utf8_len, utf8_len_upto, views, string_of,
};

use crate::dto::{CharImpactParams, DmSummarizeParams, DmWriteParams, FactCheckParams, RulesAssessParams};
use crate::specialists::{scene_writer_system, scene_writer_system_text};

verus! {

/// `s` if its UTF-8 size is at most `max` bytes, else its first `max` characters.
pub open spec fn spec_trunc(s: Seq<char>, max: nat) -> Seq<char> {
    if utf8_len(s) <= max { s } else { take_chars(s, max) }
}

/// Truncate a string to `max` chars for safe embedding in a sub-task payload.
/// Strings of at most `max` bytes are kept whole.
pub fn trunc(s: &str, max: usize) -> (r: String)
    ensures
        r@ == spec_trunc(s@, max as nat),
{
    let v = to_chars(s);
    match utf8_len_upto(&v, max) {
        Some(_) => string_of(&v),
        None => take_prefix(s, max),
    }
}

/// Truncation keeps a prefix, keeps a text that fits whole, and never keeps
/// more characters than the limit once it cuts.
pub proof fn law_trunc_prefix(s: Seq<char>, max: nat)
    ensures
        spec_trunc(s, max) == s.take(spec_trunc(s, max).len() as int),
        utf8_len(s) <= max ==> spec_trunc(s, max) == s,
        utf8_len(s) > max ==> spec_trunc(s, max).len() <= max,
{
    assert(s.take(s.len() as int) =~= s);
    if utf8_len(s) > max && s.len() > max {
        assert(s.take(max as int).take(max as int) =~= s.take(max as int));
        assert(s.take(max as int) =~= s.take(spec_trunc(s, max).len() as int));
    }
}

/// `n` written with at least three digits (`{n:03}`).
pub open spec fn pad3(n: nat) -> Seq<char> {
    if n < 10 {
        "00"@ + decimal(n)
    } else if n < 100 {
        "0"@ + decimal(n)
    } else {
        decimal(n)
    }
}

/// `turn_{n:03}.md`.
pub open spec fn turn_file(n: nat) -> Seq<char> {
    "turn_"@ + pad3(n) + ".md"@
}

/// The turn number of `turn_N.md`, if the name has that form.
pub open spec fn turn_number_of(out_file: Seq<char>) -> Option<u32> {
    if starts_with(out_file, "turn_"@) {
        let rest = out_file.skip("turn_"@.len() as int);
        if ends_with(rest, ".md"@) {
            parse_u32(rest.take(rest.len() - ".md"@.len()))
        } else {
            None
        }
    } else {
        None
    }
}

/// The file names of up to `count` turns before `turn_N.md`, most recent first.
pub open spec fn spec_prev_turns(out_file: Seq<char>, count: nat) -> Seq<Seq<char>> {
    match turn_number_of(out_file) {
        Some(num) => {
            let avail: nat = if num >= 1 { (num - 1) as nat } else { 0 };
            let k: nat = if count <= avail { count } else { avail };
            Seq::new(k, |i: int| turn_file((num - 1 - i) as nat))
        },
        None => Seq::empty(),
    }
}

pub fn pad3_text(n: u32) -> (r: String)
    ensures
        r@ == pad3(n as nat),
{
    let mut r = String::new();
    if n < 10 {
        push_str(&mut r, "00");
    } else if n < 100 {
        push_str(&mut r, "0");
    }
    let d = decimal_chars(n as u64);
    push_chars(&mut r, &d);
    assert(r@ =~= pad3(n as nat));
    r
}

pub fn turn_file_text(n: u32) -> (r: String)
    ensures
        r@ == turn_file(n as nat),
{
    let mut r = String::new();
    push_str(&mut r, "turn_");
    let p = pad3_text(n);
    push_str(&mut r, p.as_str());
    push_str(&mut r, ".md");
    assert(r@ =~= turn_file(n as nat));
    r
}

fn turn_number(out_file: &str) -> (r: Option<u32>)
    ensures
        r == turn_number_of(out_file@),
{
    let v = to_chars(out_file);
    match strip_prefix_chars(&v, "turn_") {
        None => None,
        Some(rest) => {
            let suffix = to_chars(".md");
            if rest.len() >= suffix.len() {
                let tail = sub_chars(&rest, rest.len() - suffix.len(), rest.len());
                if crate::text::chars_eq(&tail, &suffix) {
                    let num = sub_chars(&rest, 0, rest.len() - suffix.len());
                    assert(num@ =~= rest@.take(rest@.len() - ".md"@.len()));
                    return parse_u32_chars(&num);
                }
            }
            None
        },
    }
}

/// Names of the turn files before `out_file` (`turn_N.md`), most recent
/// first, at most `count` of them; none when the name has another form.
pub fn infer_prev_turns(out_file: &str, count: usize) -> (r: Vec<String>)
    ensures
        views(r@) == spec_prev_turns(out_file@, count as nat),
{
    let mut r: Vec<String> = Vec::new();
    match turn_number(out_file) {
        None => {
            assert(views(r@) =~= spec_prev_turns(out_file@, count as nat));
            r
        },
        Some(num) => {
            let ghost want = spec_prev_turns(out_file@, count as nat);
            let mut n: u32 = if num >= 1 { num - 1 } else { 0 };
            let mut i: usize = 0;
            while n >= 1 && i < count
                invariant
                    num >= 1 ==> n as int == num as int - 1 - i as int,
                    num == 0 ==> n == 0 && i == 0,
                    i <= count,
                    want == spec_prev_turns(out_file@, count as nat),
                    turn_number_of(out_file@) == Some(num),
                    views(r@) == want.take(i as int),
                    i <= want.len(),
                decreases n,
            {
                let name = turn_file_text(n);
                proof {
                    lemma_views_push(r@, name);
                }
                r.push(name);
                assert(views(r@) =~= want.take(i + 1));
                n = n - 1;
                i = i + 1;
            }
            assert(views(r@) =~= want);
            r
        },
    }
}

/// `CAMPAIGN: {name}.` followed by the non-empty party, setting and NPC
/// texts (their first 600 characters each) under section headers, the
/// parts separated by blank lines.
pub open spec fn spec_campaign_facts(name: Seq<char>, party: Seq<char>, setting: Seq<char>, npcs: Seq<char>) -> Seq<char> {
    let p0 = seq!["CAMPAIGN: "@ + name + "."@];
    let p1 = if party.len() > 0 { p0.push("--- PARTY ---\n"@ + take_chars(party, 600)) } else { p0 };
    let p2 = if setting.len() > 0 { p1.push("--- SETTING ---\n"@ + take_chars(setting, 600)) } else { p1 };
    let p3 = if npcs.len() > 0 { p2.push("--- NPCS ---\n"@ + take_chars(npcs, 600)) } else { p2 };
    join(p3, "\n\n"@)
}

fn section(header: &str, body: &str) -> (r: String)
    ensures
        r@ == header@ + take_chars(body@, 600),
{
    let mut r = owned(header);
    let b = take_prefix(body, 600);
    push_str(&mut r, b.as_str());
    r
}

pub fn build_campaign_facts(campaign_name: &str, party: &str, setting: &str, npcs: &str) -> (r: String)
    ensures
        r@ == spec_campaign_facts(campaign_name@, party@, setting@, npcs@),
{
    let mut parts: Vec<String> = Vec::new();
    let mut first = owned("CAMPAIGN: ");
    push_str(&mut first, campaign_name);
    push_str(&mut first, ".");
    proof { lemma_views_push(parts@, first); }
    parts.push(first);
    if !party.is_empty() {
        let s = section("--- PARTY ---\n", party);
        proof { lemma_views_push(parts@, s); }
        parts.push(s);
    }
    if !setting.is_empty() {
        let s = section("--- SETTING ---\n", setting);
        proof { lemma_views_push(parts@, s); }
        parts.push(s);
    }
    if !npcs.is_empty() {
        let s = section("--- NPCS ---\n", npcs);
        proof { lemma_views_push(parts@, s); }
        parts.push(s);
    }
    assert(views(parts@) =~= {
        let p0 = seq!["CAMPAIGN: "@ + campaign_name@ + "."@];
        let p1 = if party@.len() > 0 { p0.push("--- PARTY ---\n"@ + take_chars(party@, 600)) } else { p0 };
        let p2 = if setting@.len() > 0 { p1.push("--- SETTING ---\n"@ + take_chars(setting@, 600)) } else { p1 };
        if npcs@.len() > 0 { p2.push("--- NPCS ---\n"@ + take_chars(npcs@, 600)) } else { p2 }
    });
    join_strings(&parts, "\n\n")
}

// ─────────────────────── sub-task payloads ───────────────────────────────

/// The fact checker's task for one scene turn: the grounding block clipped
/// to 3000.
pub fn fact_check_params(host: &str, model: &str, character: &str, action: &str, grounding_block: &str) -> (r: FactCheckParams)
    ensures
        r.task_type@ == "fact_check"@,
        r.ollama_host@ == host@,
        r.model@ == model@,
        r.character@ == character@,
        r.action@ == action@,
        r.grounding_block@ == spec_trunc(grounding_block@, 3000),
{
    FactCheckParams {
        task_type: owned("fact_check"),
        ollama_host: owned(host),
        model: owned(model),
        character: owned(character),
        action: owned(action),
        grounding_block: trunc(grounding_block, 3000),
    }
}

/// The rules assessor's task: the rules context clipped to 2000, the party
/// table whole.
pub fn rules_assess_params(
    host: &str,
    model: &str,
    character: &str,
    action: &str,
    party_state: &str,
    rules_context: &str,
) -> (r: RulesAssessParams)
    ensures
        r.task_type@ == "rules_assess"@,
        r.ollama_host@ == host@,
        r.model@ == model@,
        r.character@ == character@,
        r.action@ == action@,
        r.party_state@ == party_state@,
        r.rules_context@ == spec_trunc(rules_context@, 2000),
{
    RulesAssessParams {
        task_type: owned("rules_assess"),
        ollama_host: owned(host),
        model: owned(model),
        character: owned(character),
        action: owned(action),
        party_state: owned(party_state),
        rules_context: trunc(rules_context, 2000),
    }
}

/// The DM writer's task: campaign facts and the fact checker's account
/// clipped to 1500, the dice prose to 500, and the system prompt (the
/// run's own, else the campaign DM's) to 800.
pub fn dm_write_params(
    host: &str,
    model: &str,
    campaign_name: &str,
    session_dir: &str,
    scene_dir: &str,
    character: &str,
    action: &str,
    campaign_facts: &str,
    critic_context: &str,
    dice_context: &str,
    system_prompt: Option<&str>,
) -> (r: DmWriteParams)
    ensures
        r.task_type@ == "dm_write"@,
        r.ollama_host@ == host@,
        r.model@ == model@,
        r.campaign_name@ == campaign_name@,
        r.session_dir@ == session_dir@,
        r.scene_dir@ == scene_dir@,
        r.character@ == character@,
        r.action@ == action@,
        r.campaign_facts@ == spec_trunc(campaign_facts@, 1500),
        r.critic_context@ == spec_trunc(critic_context@, 1500),
        r.dice_context@ == spec_trunc(dice_context@, 500),
        r.system_prompt@ == scene_writer_system_text(
            match system_prompt {
                Some(t) => Some(t@),
                None => None,
            },
            campaign_name@,
        ),
{
    DmWriteParams {
        task_type: owned("dm_write"),
        ollama_host: owned(host),
        model: owned(model),
        campaign_name: owned(campaign_name),
        session_dir: owned(session_dir),
        scene_dir: owned(scene_dir),
        character: owned(character),
        action: owned(action),
        campaign_facts: trunc(campaign_facts, 1500),
        critic_context: trunc(critic_context, 1500),
        dice_context: trunc(dice_context, 500),
        system_prompt: scene_writer_system(system_prompt, campaign_name),
    }
}

/// The condition tracker's task: the dice prose clipped to 400, the DM's
/// prose to 1200 and the cosmic rules to 800.
pub fn char_impact_params(
    host: &str,
    model: &str,
    character: &str,
    roll_outcome: &str,
    dice_context: &str,
    dm_prose: &str,
    party_state: &str,
    cosmic_rules: &str,
) -> (r: CharImpactParams)
    ensures
        r.task_type@ == "char_impact"@,
        r.ollama_host@ == host@,
        r.model@ == model@,
        r.character@ == character@,
        r.roll_outcome@ == roll_outcome@,
        r.dice_context@ == spec_trunc(dice_context@, 400),
        r.dm_prose@ == spec_trunc(dm_prose@, 1200),
        r.party_state@ == party_state@,
        r.cosmic_rules@ == spec_trunc(cosmic_rules@, 800),
{
    CharImpactParams {
        task_type: owned("char_impact"),
        ollama_host: owned(host),
        model: owned(model),
        character: owned(character),
        roll_outcome: owned(roll_outcome),
        dice_context: trunc(dice_context, 400),
        dm_prose: trunc(dm_prose, 1200),
        party_state: owned(party_state),
        cosmic_rules: trunc(cosmic_rules, 800),
    }
}

/// The summarizer's task: the DM's prose clipped to 2000.
pub fn dm_summarize_params(host: &str, model: &str, character: &str, prose: &str) -> (r: DmSummarizeParams)
    ensures
        r.task_type@ == "dm_summarize"@,
        r.ollama_host@ == host@,
        r.model@ == model@,
        r.character@ == character@,
        r.prose@ == spec_trunc(prose@, 2000),
{
    DmSummarizeParams {
        task_type: owned("dm_summarize"),
        ollama_host: owned(host),
        model: owned(model),
        character: owned(character),
        prose: trunc(prose, 2000),
    }
}

} // verus!
