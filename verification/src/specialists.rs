//! The specialist steps of the scene pipeline (fact checker, rules
//! assessor, DM writer, condition tracker, summarizer): the prompts each one
//! sends its model, and how each one reduces the model's reply to the one
//! structured answer the pipeline reads.
use vstd::prelude::*;

use crate::text::{
    deep, first_index, join, join_chars, lemma_first_index_step, lines, lines_chars, owned,
    push_str, starts_with, string_of, strip_prefix_chars, take_chars, take_prefix, to_chars, trim,
    trim_chars, chars_eq_str,
};

use crate::pipeline::{spec_trunc, trunc};
use crate::prompts::{dm_respond_system, dm_respond_system_text};

verus! {

// ─────────────────────────────── prompts ───────────────────────────────────

/// The system prompt the scene pipeline hands its DM writer: the run's own
/// prompt when it has one, else the campaign DM's, clipped to 800.
pub open spec fn scene_writer_system_text(given: Option<Seq<char>>, campaign_name: Seq<char>) -> Seq<char> {
    spec_trunc(
        match given {
            Some(t) => t,
            None => dm_respond_system_text(campaign_name),
        },
        800,
    )
}

pub fn scene_writer_system(given: Option<&str>, campaign_name: &str) -> (r: String)
    ensures
        r@ == scene_writer_system_text(
            match given {
                Some(t) => Some(t@),
                None => None,
            },
            campaign_name@,
        ),
{
    let full = match given {
        Some(t) => owned(t),
        None => dm_respond_system(campaign_name),
    };
    trunc(full.as_str(), 800)
}

/// The fact-checker's instructions, naming the acting character.
pub open spec fn fact_check_system_text(character: Seq<char>) -> Seq<char> {
    "You are a campaign fact-checker. Read the files below. CHARACTERS: list every named character with their current situation (one line each). RECENT EVENTS: 2 sentences on what happened most recently. ACTING CHARACTER: one paragraph on who "@ + character + " is, their stats, their Devotion, and where they stand right now. PEDANTIC RULE: only use names and facts that appear verbatim in the files provided."@
}

pub fn fact_check_system(character: &str) -> (r: String)
    ensures
        r@ == fact_check_system_text(character@),
{
    let mut r = owned("You are a campaign fact-checker. Read the files below. CHARACTERS: list every named character with their current situation (one line each). RECENT EVENTS: 2 sentences on what happened most recently. ACTING CHARACTER: one paragraph on who ");
    push_str(&mut r, character);
    push_str(&mut r, " is, their stats, their Devotion, and where they stand right now. PEDANTIC RULE: only use names and facts that appear verbatim in the files provided.");
    r
}

/// The fact-checker's input: the acting character, the action and the grounding files.
pub open spec fn fact_check_user_text(character: Seq<char>, action: Seq<char>, grounding: Seq<char>) -> Seq<char> {
    "Acting character: "@ + character + "\nPlayer action: "@ + action + "\n\n"@ + grounding
}

pub fn fact_check_user(character: &str, action: &str, grounding: &str) -> (r: String)
    ensures
        r@ == fact_check_user_text(character@, action@, grounding@),
{
    let mut r = owned("Acting character: ");
    push_str(&mut r, character);
    push_str(&mut r, "\nPlayer action: ");
    push_str(&mut r, action);
    push_str(&mut r, "\n\n");
    push_str(&mut r, grounding);
    r
}

/// The rules assessor's instructions: one `ROLL|...` line or `NO_ROLL`.
pub fn rules_assess_system() -> (r: &'static str)
    ensures
        r@ == "You are a TTRPG rules assessor. Decide if a dice check is needed and output ONE line.\n\nOUTPUT FORMAT — choose exactly one:\n  ROLL|CharacterName|check_type|tier|brief reason (what failure means)\n  NO_ROLL\n\nCHOOSING check_type:\n  cosmic_dread — action involves the Thing from Below: impossible geometry, void, eldritch entities, forbidden knowledge\n  fear         — witnessing supernatural horror: undead, possession, unnatural death\n  <skill_name> — any other action: use the exact skill name from the rules (e.g. Investigation, Arcana, Medicine)\n\nCHOOSING tier:\n  Read the tiers listed for the check_type. Pick the lowest tier that fits the severity.\n  For cosmic_dread: evidence | fragment | attention | true_form | comprehension\n  For fear:         unsettling | disturbing | terrifying | soul_shaking\n  For skills:       easy | moderate | hard | extreme\n\nREASON:\n  One short phrase — what specifically fails if the roll fails.\n  BAD:  what it determines\n  GOOD: resists the cosmic impression\n  GOOD: the rune pattern stays opaque\n\nOnly call for a roll if failure has a meaningful consequence. Trivial actions: NO_ROLL.\nOutput ONLY the single ROLL| line or NO_ROLL. No prose. No explanation."@,
{
    "You are a TTRPG rules assessor. Decide if a dice check is needed and output ONE line.\n\nOUTPUT FORMAT — choose exactly one:\n  ROLL|CharacterName|check_type|tier|brief reason (what failure means)\n  NO_ROLL\n\nCHOOSING check_type:\n  cosmic_dread — action involves the Thing from Below: impossible geometry, void, eldritch entities, forbidden knowledge\n  fear         — witnessing supernatural horror: undead, possession, unnatural death\n  <skill_name> — any other action: use the exact skill name from the rules (e.g. Investigation, Arcana, Medicine)\n\nCHOOSING tier:\n  Read the tiers listed for the check_type. Pick the lowest tier that fits the severity.\n  For cosmic_dread: evidence | fragment | attention | true_form | comprehension\n  For fear:         unsettling | disturbing | terrifying | soul_shaking\n  For skills:       easy | moderate | hard | extreme\n\nREASON:\n  One short phrase — what specifically fails if the roll fails.\n  BAD:  what it determines\n  GOOD: resists the cosmic impression\n  GOOD: the rune pattern stays opaque\n\nOnly call for a roll if failure has a meaningful consequence. Trivial actions: NO_ROLL.\nOutput ONLY the single ROLL| line or NO_ROLL. No prose. No explanation."
}

/// The rules assessor's input.
pub open spec fn rules_assess_user_text(character: Seq<char>, action: Seq<char>, state: Seq<char>, rules: Seq<char>) -> Seq<char> {
    "CHARACTER: "@ + character + "\nACTION: "@ + action + "\n\nCURRENT STATE:\n"@ + state + "\n\nRULES:\n"@ + rules + "\n\nOutput now:"@
}

pub fn rules_assess_user(character: &str, action: &str, state: &str, rules: &str) -> (r: String)
    ensures
        r@ == rules_assess_user_text(character@, action@, state@, rules@),
{
    let mut r = owned("CHARACTER: ");
    push_str(&mut r, character);
    push_str(&mut r, "\nACTION: ");
    push_str(&mut r, action);
    push_str(&mut r, "\n\nCURRENT STATE:\n");
    push_str(&mut r, state);
    push_str(&mut r, "\n\nRULES:\n");
    push_str(&mut r, rules);
    push_str(&mut r, "\n\nOutput now:");
    r
}

/// The DM writer's input: campaign, scene, grounded facts, dice outcomes and the action.
pub open spec fn dm_write_user_text(campaign_facts: Seq<char>, session_dir: Seq<char>, scene_dir: Seq<char>, critic_context: Seq<char>, dice_context: Seq<char>, character: Seq<char>, action: Seq<char>) -> Seq<char> {
    "CAMPAIGN:\n"@ + campaign_facts + "\n\nSCENE: "@ + session_dir + "/"@ + scene_dir + "\n\nGROUNDED FACTS (use ONLY these names and events):\n"@ + critic_context + "\n\nDICE OUTCOMES (already happened — honour them exactly):\n"@ + dice_context + "\n\nPLAYER ACTION: "@ + character + " — "@ + action + "\n\nCRITICAL RULES:\n- The scene picks up from the grounded facts. Do NOT re-describe events that already happened.\n- Narrate only what happens next. What does the character experience? What does the world do back?\n- SUCCESS means the action worked. FAILURE means it did not — narrate the consequence, not the success.\n- NEVER write dice notation (1d20, +N, DC, roll numbers). Translate outcomes into pure sensation and event.\n- Write in second or third person as the scene demands. 3-5 paragraphs.\nOUTPUT ONLY NARRATIVE PROSE. No JSON. No tool calls. No structured data. Just the scene."@
}

pub fn dm_write_user(campaign_facts: &str, session_dir: &str, scene_dir: &str, critic_context: &str, dice_context: &str, character: &str, action: &str) -> (r: String)
    ensures
        r@ == dm_write_user_text(campaign_facts@, session_dir@, scene_dir@, critic_context@, dice_context@, character@, action@),
{
    let mut r = owned("CAMPAIGN:\n");
    push_str(&mut r, campaign_facts);
    push_str(&mut r, "\n\nSCENE: ");
    push_str(&mut r, session_dir);
    push_str(&mut r, "/");
    push_str(&mut r, scene_dir);
    push_str(&mut r, "\n\nGROUNDED FACTS (use ONLY these names and events):\n");
    push_str(&mut r, critic_context);
    push_str(&mut r, "\n\nDICE OUTCOMES (already happened — honour them exactly):\n");
    push_str(&mut r, dice_context);
    push_str(&mut r, "\n\nPLAYER ACTION: ");
    push_str(&mut r, character);
    push_str(&mut r, " — ");
    push_str(&mut r, action);
    push_str(&mut r, "\n\nCRITICAL RULES:\n- The scene picks up from the grounded facts. Do NOT re-describe events that already happened.\n- Narrate only what happens next. What does the character experience? What does the world do back?\n- SUCCESS means the action worked. FAILURE means it did not — narrate the consequence, not the success.\n- NEVER write dice notation (1d20, +N, DC, roll numbers). Translate outcomes into pure sensation and event.\n- Write in second or third person as the scene demands. 3-5 paragraphs.\nOUTPUT ONLY NARRATIVE PROSE. No JSON. No tool calls. No structured data. Just the scene.");
    r
}

/// What the DM writer reports when the model fails.
pub open spec fn dm_write_error_text(e: Seq<char>) -> Seq<char> {
    "*(DM response error: "@ + e + ")*"@
}

pub fn dm_write_error(e: &str) -> (r: String)
    ensures
        r@ == dm_write_error_text(e@),
{
    let mut r = owned("*(DM response error: ");
    push_str(&mut r, e);
    push_str(&mut r, ")*");
    r
}

/// The condition tracker's instructions.
pub fn char_impact_system() -> (r: &'static str)
    ensures
        r@ == "You are a TTRPG condition tracker. CDP and Dread are handled by the rules engine. Your only job: did the narrative result in a named lasting condition on this character?\n\nOUTPUT FORMAT:\n  CONDITION|Full Character Name|ConditionName\n  NO_CHANGE\n\nSTRICT RULES:\n1. Only output CONDITION if the narrative explicitly describes a lasting named status effect.\n2. Valid conditions: Frightened, Shaken, Counted, Paralysed, Blinded, Cursed, Stunned. 1-2 words max.\n3. Do NOT output CDP or DREAD lines — the rules engine handles those.\n4. Do NOT infer conditions from dramatic tone. Only set what the narrative explicitly states.\n5. ROLL_OUTCOME=SUCCESS means the check passed — do not apply failure conditions.\n6. Use the character's EXACT full name.\n7. If no condition changed: output exactly NO_CHANGE.\n8. NO prose. NO explanation. ONLY the structured line or NO_CHANGE."@,
{
    "You are a TTRPG condition tracker. CDP and Dread are handled by the rules engine. Your only job: did the narrative result in a named lasting condition on this character?\n\nOUTPUT FORMAT:\n  CONDITION|Full Character Name|ConditionName\n  NO_CHANGE\n\nSTRICT RULES:\n1. Only output CONDITION if the narrative explicitly describes a lasting named status effect.\n2. Valid conditions: Frightened, Shaken, Counted, Paralysed, Blinded, Cursed, Stunned. 1-2 words max.\n3. Do NOT output CDP or DREAD lines — the rules engine handles those.\n4. Do NOT infer conditions from dramatic tone. Only set what the narrative explicitly states.\n5. ROLL_OUTCOME=SUCCESS means the check passed — do not apply failure conditions.\n6. Use the character's EXACT full name.\n7. If no condition changed: output exactly NO_CHANGE.\n8. NO prose. NO explanation. ONLY the structured line or NO_CHANGE."
}

/// The condition tracker's input.
pub open spec fn char_impact_user_text(character: Seq<char>, roll_outcome: Seq<char>, dice_context: Seq<char>, dm_prose: Seq<char>, party_text: Seq<char>, cosmic_rules: Seq<char>) -> Seq<char> {
    "CHARACTER: "@ + character + "\nROLL_OUTCOME: "@ + roll_outcome + "\n\nDICE OUTCOME:\n"@ + dice_context + "\n\nNARRATIVE:\n"@ + dm_prose + "\n\nCURRENT PARTY STATS:\n"@ + party_text + "\n\nCOSMIC RULES:\n"@ + cosmic_rules + "\n\nOutput stat change lines now:"@
}

pub fn char_impact_user(character: &str, roll_outcome: &str, dice_context: &str, dm_prose: &str, party_text: &str, cosmic_rules: &str) -> (r: String)
    ensures
        r@ == char_impact_user_text(character@, roll_outcome@, dice_context@, dm_prose@, party_text@, cosmic_rules@),
{
    let mut r = owned("CHARACTER: ");
    push_str(&mut r, character);
    push_str(&mut r, "\nROLL_OUTCOME: ");
    push_str(&mut r, roll_outcome);
    push_str(&mut r, "\n\nDICE OUTCOME:\n");
    push_str(&mut r, dice_context);
    push_str(&mut r, "\n\nNARRATIVE:\n");
    push_str(&mut r, dm_prose);
    push_str(&mut r, "\n\nCURRENT PARTY STATS:\n");
    push_str(&mut r, party_text);
    push_str(&mut r, "\n\nCOSMIC RULES:\n");
    push_str(&mut r, cosmic_rules);
    push_str(&mut r, "\n\nOutput stat change lines now:");
    r
}

/// The summarizer's instructions: one past-tense sentence.
pub fn summarize_system() -> (r: &'static str)
    ensures
        r@ == "Write one sentence: who did what, and what was the outcome. Past tense. Use the character's full name exactly as given. If a roll shaped the scene, say so briefly. Do NOT start with 'In turn', 'In this scene', or any meta-framing. One sentence only."@,
{
    "Write one sentence: who did what, and what was the outcome. Past tense. Use the character's full name exactly as given. If a roll shaped the scene, say so briefly. Do NOT start with 'In turn', 'In this scene', or any meta-framing. One sentence only."
}

/// The summarizer's input: the character's full name and the first 2000
/// characters of the scene.
pub open spec fn summarize_user_text(character: Seq<char>, prose: Seq<char>) -> Seq<char> {
    "Character full name: "@ + character + "\n\nScene:\n"@ + take_chars(prose, 2000)
}

pub fn summarize_user(character: &str, prose: &str) -> (r: String)
    ensures
        r@ == summarize_user_text(character@, prose@),
{
    let mut r = owned("Character full name: ");
    push_str(&mut r, character);
    push_str(&mut r, "\n\nScene:\n");
    let p = take_prefix(prose, 2000);
    push_str(&mut r, p.as_str());
    r
}

// ─────────────────────────────── replies ───────────────────────────────────

/// A model's reply text: its content trimmed, `(no response)` when it has none.
pub fn chat_reply_text(content: Option<&str>) -> (r: String)
    ensures
        r@ == trim(match content {
            Some(c) => c@,
            None => "(no response)"@,
        }),
{
    let v = match content {
        Some(c) => to_chars(c),
        None => to_chars("(no response)"),
    };
    string_of(&trim_chars(&v))
}

/// A line the rules assessor may answer with.
pub open spec fn is_roll_line(l: Seq<char>) -> bool {
    starts_with(l, "ROLL|"@) || trim(l) == "NO_ROLL"@
}

pub open spec fn roll_line_pred() -> spec_fn(Seq<char>) -> bool {
    |l: Seq<char>| is_roll_line(l)
}

/// The rules assessor's answer: the first `ROLL|` or `NO_ROLL` line of the
/// reply, trimmed; `NO_ROLL` when there is none.
pub open spec fn roll_answer(reply: Seq<char>) -> Seq<char> {
    match first_index(lines(reply), roll_line_pred()) {
        Some(i) => trim(lines(reply)[i]),
        None => "NO_ROLL"@,
    }
}

pub fn clean_roll_line(reply: &str) -> (r: String)
    ensures
        r@ == roll_answer(reply@),
{
    let ls = lines_chars(&to_chars(reply));
    let ghost d = deep(ls@);
    let mut i: usize = 0;
    assert(d.take(0) =~= Seq::<Seq<char>>::empty());
    while i < ls.len()
        invariant
            i <= ls.len(),
            d == deep(ls@),
            d == lines(reply@),
            first_index(d.take(i as int), roll_line_pred()) is None,
        decreases ls.len() - i,
    {
        proof {
            lemma_first_index_step(d, roll_line_pred(), i as int);
        }
        let l = &ls[i];
        assert(d[i as int] == l@);
        let t = trim_chars(l);
        if strip_prefix_chars(l, "ROLL|").is_some() || chars_eq_str(&t, "NO_ROLL") {
            return string_of(&t);
        }
        i += 1;
    }
    assert(d.take(ls.len() as int) =~= d);
    owned("NO_ROLL")
}

/// A line the condition tracker may answer with.
pub open spec fn is_impact_line(l: Seq<char>) -> bool {
    starts_with(l, "CDP|"@) || starts_with(l, "DREAD|"@) || starts_with(l, "CONDITION|"@) || trim(l) == "NO_CHANGE"@
}

/// The answer lines among the reply's lines, as they are, in order.
pub open spec fn impact_lines(ls: Seq<Seq<char>>) -> Seq<Seq<char>>
    decreases ls.len(),
{
    if ls.len() == 0 {
        seq![]
    } else {
        let p = impact_lines(ls.drop_last());
        if is_impact_line(ls.last()) {
            p.push(ls.last())
        } else {
            p
        }
    }
}

/// The condition tracker's answer: its answer lines joined by newlines, or
/// `NO_CHANGE` when it gave none.
pub open spec fn impact_answer(reply: Seq<char>) -> Seq<char> {
    let k = impact_lines(lines(reply));
    if k.len() == 0 {
        "NO_CHANGE"@
    } else {
        join(k, "\n"@)
    }
}

pub fn clean_impact_lines(reply: &str) -> (r: String)
    ensures
        r@ == impact_answer(reply@),
{
    let ls = lines_chars(&to_chars(reply));
    let ghost d = deep(ls@);
    let mut kept: Vec<Vec<char>> = Vec::new();
    let mut i: usize = 0;
    assert(d.take(0) =~= Seq::<Seq<char>>::empty());
    while i < ls.len()
        invariant
            i <= ls.len(),
            d == deep(ls@),
            d == lines(reply@),
            deep(kept@) == impact_lines(d.take(i as int)),
        decreases ls.len() - i,
    {
        proof {
            assert(d.take(i + 1).drop_last() =~= d.take(i as int));
            assert(d.take(i + 1).last() == d[i as int]);
        }
        let l = &ls[i];
        assert(d[i as int] == l@);
        let t = trim_chars(l);
        if strip_prefix_chars(l, "CDP|").is_some() || strip_prefix_chars(l, "DREAD|").is_some()
            || strip_prefix_chars(l, "CONDITION|").is_some() || chars_eq_str(&t, "NO_CHANGE") {
            let ghost before = deep(kept@);
            let c = crate::text::copy_chars(l);
            kept.push(c);
            assert(deep(kept@) =~= before.push(l@));
        }
        i += 1;
    }
    assert(d.take(ls.len() as int) =~= d);
    if kept.len() == 0 {
        owned("NO_CHANGE")
    } else {
        let nl = to_chars("\n");
        string_of(&join_chars(&kept, &nl))
    }
}

} // verus!
