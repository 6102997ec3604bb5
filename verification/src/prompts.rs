//! What each campaign run asks its model, word for word: the system and
//! user texts of the thinker, critic, rules lawyer, fact checkers, DM
//! writers, summarizers, twist finder, grace finder, scene architect and
//! scene-opener writer, the hook material a grand opener reads, and the
//! headers and sections of the runs' meta logs.
use vstd::prelude::*;

use crate::index::{logged_summary, logged_summary_line, logged_summary_line_of};
use crate::text::{join, join_strings, to_chars, lemma_views_push, owned, push_str, take_chars, take_prefix, views};

verus! {

/// The thinker of a think-and-run: a plan in four labelled sections.
pub open spec fn think_thinker_system_text() -> Seq<char> {
    "You are a TTRPG DM Thinker. Using ONLY the campaign facts provided, analyze the DM intent and produce a concrete plan in four labelled sections:\nNARRATIVE: tone, atmosphere, and the story beat being played.\nCHARACTERS: which player characters and NPCs are involved — use their EXACT names from the campaign facts.\nRULES: which game mechanics apply — with rough DCs.\nTOOLS NEEDED: list every tool call required: campaign files to read (names), dice to roll (notations like 1d20, 2d6+2).\nUse ONLY the characters listed in the campaign facts. Do not invent characters. Two sentences per section maximum."@
}

pub fn think_thinker_system() -> (r: &'static str)
    ensures
        r@ == think_thinker_system_text(),
{
    "You are a TTRPG DM Thinker. Using ONLY the campaign facts provided, analyze the DM intent and produce a concrete plan in four labelled sections:\nNARRATIVE: tone, atmosphere, and the story beat being played.\nCHARACTERS: which player characters and NPCs are involved — use their EXACT names from the campaign facts.\nRULES: which game mechanics apply — with rough DCs.\nTOOLS NEEDED: list every tool call required: campaign files to read (names), dice to roll (notations like 1d20, 2d6+2).\nUse ONLY the characters listed in the campaign facts. Do not invent characters. Two sentences per section maximum."
}

/// The critic of a think-and-run.
pub open spec fn think_critic_system_text() -> Seq<char> {
    "You are a DM Critic. You receive a DM intent and a thinker's plan. Your job:\n1. Correct any wrong rule DCs or missing mechanics.\n2. Add gothic horror flavour the thinker missed (dread, shadows, rain, isolation).\n3. Confirm or revise the list of tools to call — be specific and minimal.\nOutput 3-5 sentences. Direct and actionable."@
}

pub fn think_critic_system() -> (r: &'static str)
    ensures
        r@ == think_critic_system_text(),
{
    "You are a DM Critic. You receive a DM intent and a thinker's plan. Your job:\n1. Correct any wrong rule DCs or missing mechanics.\n2. Add gothic horror flavour the thinker missed (dread, shadows, rain, isolation).\n3. Confirm or revise the list of tools to call — be specific and minimal.\nOutput 3-5 sentences. Direct and actionable."
}

/// The rules-lawyer query of a think-and-run.
pub open spec fn rule_query_system_text() -> Seq<char> {
    "Output ONE rulebook search query (under 12 words). Nothing else, no quotes."@
}

pub fn rule_query_system() -> (r: &'static str)
    ensures
        r@ == rule_query_system_text(),
{
    "Output ONE rulebook search query (under 12 words). Nothing else, no quotes."
}

/// The campaign-file selection of a think-and-run.
pub open spec fn file_selection_system_text() -> Seq<char> {
    "Output a JSON array of up to 3 filenames from the provided list that are most relevant. No prose, only the JSON array, e.g.: [\"world.md\",\"party.md\"]"@
}

pub fn file_selection_system() -> (r: &'static str)
    ensures
        r@ == file_selection_system_text(),
{
    "Output a JSON array of up to 3 filenames from the provided list that are most relevant. No prose, only the JSON array, e.g.: [\"world.md\",\"party.md\"]"
}

/// The dice list of a think-and-run.
pub open spec fn dice_list_system_text() -> Seq<char> {
    "List every dice roll needed for this turn as a JSON array of notation strings. E.g. [\"1d20\",\"2d6+2\"]. If no rolls needed output []. Only JSON, no prose."@
}

pub fn dice_list_system() -> (r: &'static str)
    ensures
        r@ == dice_list_system_text(),
{
    "List every dice roll needed for this turn as a JSON array of notation strings. E.g. [\"1d20\",\"2d6+2\"]. If no rolls needed output []. Only JSON, no prose."
}

/// The action summary of a think-and-run.
pub open spec fn action_summary_system_text() -> Seq<char> {
    "You are a Turn Summarizer for a Gothic Horror TTRPG. Given the DM intent, all rules looked up, campaign context read, and dice results, write a crisp 2-3 sentence summary of WHAT HAPPENS this turn from the players' perspective. Include specific dice outcomes and their narrative meaning (hit/miss/partial). Gothic tone — dread, shadow, rain. No DM meta-commentary."@
}

pub fn action_summary_system() -> (r: &'static str)
    ensures
        r@ == action_summary_system_text(),
{
    "You are a Turn Summarizer for a Gothic Horror TTRPG. Given the DM intent, all rules looked up, campaign context read, and dice results, write a crisp 2-3 sentence summary of WHAT HAPPENS this turn from the players' perspective. Include specific dice outcomes and their narrative meaning (hit/miss/partial). Gothic tone — dread, shadow, rain. No DM meta-commentary."
}

/// The thinker of a session turn.
pub open spec fn session_thinker_system_text() -> Seq<char> {
    "You are a TTRPG DM Thinker. Using ONLY the campaign facts provided, analyze the DM intent and produce a concrete plan:\nNARRATIVE: tone and story beat (2 sentences).\nCHARACTERS: which PCs/NPCs are involved — use their EXACT names from the campaign facts (2 sentences).\nRULES: which mechanics apply — with DCs (2 sentences).\nTOOLS: campaign files to read (filenames), dice notations.\nDo not invent characters. Use only names from the campaign facts."@
}

pub fn session_thinker_system() -> (r: &'static str)
    ensures
        r@ == session_thinker_system_text(),
{
    "You are a TTRPG DM Thinker. Using ONLY the campaign facts provided, analyze the DM intent and produce a concrete plan:\nNARRATIVE: tone and story beat (2 sentences).\nCHARACTERS: which PCs/NPCs are involved — use their EXACT names from the campaign facts (2 sentences).\nRULES: which mechanics apply — with DCs (2 sentences).\nTOOLS: campaign files to read (filenames), dice notations.\nDo not invent characters. Use only names from the campaign facts."
}

/// The fact checker of a session turn.
pub open spec fn session_fact_check_system_text() -> Seq<char> {
    "You are a campaign fact-checker. Read the files below. CHARACTERS: list every named character with their current situation (one line each). RECENT EVENTS: 2 sentences on what happened most recently relevant to the intent. PEDANTIC RULE: only use names, places, and facts that appear verbatim in the files. Do NOT invent or embellish anything not present in the files."@
}

pub fn session_fact_check_system() -> (r: &'static str)
    ensures
        r@ == session_fact_check_system_text(),
{
    "You are a campaign fact-checker. Read the files below. CHARACTERS: list every named character with their current situation (one line each). RECENT EVENTS: 2 sentences on what happened most recently relevant to the intent. PEDANTIC RULE: only use names, places, and facts that appear verbatim in the files. Do NOT invent or embellish anything not present in the files."
}

/// The rules lawyer of a session turn: one `ROLL|` line per check.
pub open spec fn session_rules_system_text() -> Seq<char> {
    "You are a TTRPG rules lawyer. The intent specifies which characters make which checks — use those EXACT character names.\nFor each ability check in the intent, output ONE line:\nROLL|CharacterName|ABILITY|1d20+N|DC|what the roll determines\nExample: ROLL|Kay|ENDURE|1d20+3|16|whether he holds the line or says too much\nSTRICT RULES:\n- notation MUST be exactly 1d20+N or 1d20 (no spaces, no 'keep highest', no advantage)\n- use the modifier from the rules file for that character+ability (e.g. Gareth PRESENCE+2 → 1d20+2)\n- if a character has no modifier for that ability, use 1d20\n- the character name must match the intent exactly\n- DC must be a number (10, 14, 18, 22) — never output the literal word 'DC'\n- if unsure of DC, default to 14\nOutput ONLY ROLL| lines. No prose. No JSON. No explanation."@
}

pub fn session_rules_system() -> (r: &'static str)
    ensures
        r@ == session_rules_system_text(),
{
    "You are a TTRPG rules lawyer. The intent specifies which characters make which checks — use those EXACT character names.\nFor each ability check in the intent, output ONE line:\nROLL|CharacterName|ABILITY|1d20+N|DC|what the roll determines\nExample: ROLL|Kay|ENDURE|1d20+3|16|whether he holds the line or says too much\nSTRICT RULES:\n- notation MUST be exactly 1d20+N or 1d20 (no spaces, no 'keep highest', no advantage)\n- use the modifier from the rules file for that character+ability (e.g. Gareth PRESENCE+2 → 1d20+2)\n- if a character has no modifier for that ability, use 1d20\n- the character name must match the intent exactly\n- DC must be a number (10, 14, 18, 22) — never output the literal word 'DC'\n- if unsure of DC, default to 14\nOutput ONLY ROLL| lines. No prose. No JSON. No explanation."
}

/// The one-sentence summary of a session turn.
pub open spec fn session_summarize_system_text() -> Seq<char> {
    "Write one sentence: who did what, and what was the outcome. Past tense. Name the characters. If a roll shaped the scene, say so briefly. Do NOT start with 'In turn', 'In this scene', or any meta-framing. One sentence only."@
}

pub fn session_summarize_system() -> (r: &'static str)
    ensures
        r@ == session_summarize_system_text(),
{
    "Write one sentence: who did what, and what was the outcome. Past tense. Name the characters. If a roll shaped the scene, say so briefly. Do NOT start with 'In turn', 'In this scene', or any meta-framing. One sentence only."
}

/// The fact checker of a player turn.
pub open spec fn player_fact_check_system_text() -> Seq<char> {
    "You are a campaign fact-checker. Read the files below. CHARACTERS: list every named character with their current situation (one line each). RECENT EVENTS: 2 sentences on what happened most recently. ACTING CHARACTER: one paragraph on who {character} is, their stats, their Devotion, and where they stand. PEDANTIC RULE: only use names and facts that appear verbatim in the files."@
}

pub fn player_fact_check_system() -> (r: &'static str)
    ensures
        r@ == player_fact_check_system_text(),
{
    "You are a campaign fact-checker. Read the files below. CHARACTERS: list every named character with their current situation (one line each). RECENT EVENTS: 2 sentences on what happened most recently. ACTING CHARACTER: one paragraph on who {character} is, their stats, their Devotion, and where they stand. PEDANTIC RULE: only use names and facts that appear verbatim in the files."
}

/// The rules assessor of a player turn.
pub open spec fn player_rules_system_text() -> Seq<char> {
    "You are a TTRPG rules assessor. Output ONLY a ROLL| line or NO_ROLL. No prose."@
}

pub fn player_rules_system() -> (r: &'static str)
    ensures
        r@ == player_rules_system_text(),
{
    "You are a TTRPG rules assessor. Output ONLY a ROLL| line or NO_ROLL. No prose."
}

/// The condenser of a session recap.
pub open spec fn session_condense_system_text() -> Seq<char> {
    "You are condensing one scene from a TTRPG session. Write 2-3 sentences in past tense describing only what happened: who acted, what they found or did, and what changed. No commentary. No new events. Only what the text describes."@
}

pub fn session_condense_system() -> (r: &'static str)
    ensures
        r@ == session_condense_system_text(),
{
    "You are condensing one scene from a TTRPG session. Write 2-3 sentences in past tense describing only what happened: who acted, what they found or did, and what changed. No commentary. No new events. Only what the text describes."
}

/// The writer of a session recap.
pub open spec fn session_record_system_text() -> Seq<char> {
    "You are writing a session record for a TTRPG campaign log. You have been given factual scene summaries for each scene in the session. Write 3-4 sentences of past-tense prose covering what happened across the session. RULES: (1) Use character names exactly as given — no added titles, roles, or descriptors. (2) Do not add events, locations, or characters not present in the input. (3) Cover each scene in order. Note significant dice outcomes if mentioned. (4) End with the situation the party is left in. Output only the prose. Nothing else."@
}

pub fn session_record_system() -> (r: &'static str)
    ensures
        r@ == session_record_system_text(),
{
    "You are writing a session record for a TTRPG campaign log. You have been given factual scene summaries for each scene in the session. Write 3-4 sentences of past-tense prose covering what happened across the session. RULES: (1) Use character names exactly as given — no added titles, roles, or descriptors. (2) Do not add events, locations, or characters not present in the input. (3) Cover each scene in order. Note significant dice outcomes if mentioned. (4) End with the situation the party is left in. Output only the prose. Nothing else."
}

/// The twist finder of a grand opener.
pub open spec fn twist_system_text() -> Seq<char> {
    "You are a TTRPG DM reading the previous session's record. Based only on what is described in the session material: (1) TENSION: the single most unresolved problem or question the party is carrying into the next session. (2) TWIST: one dark complication grounded in the session's events — something that makes the situation worse, costs more, or reveals something the party didn't know. Do not invent new factions or characters. (3) OPENING IMAGE: one specific sentence describing the first thing the players perceive — a concrete detail, not a mood. Reply in exactly three labelled lines: TENSION: / TWIST: / OPENING IMAGE:"@
}

pub fn twist_system() -> (r: &'static str)
    ensures
        r@ == twist_system_text(),
{
    "You are a TTRPG DM reading the previous session's record. Based only on what is described in the session material: (1) TENSION: the single most unresolved problem or question the party is carrying into the next session. (2) TWIST: one dark complication grounded in the session's events — something that makes the situation worse, costs more, or reveals something the party didn't know. Do not invent new factions or characters. (3) OPENING IMAGE: one specific sentence describing the first thing the players perceive — a concrete detail, not a mood. Reply in exactly three labelled lines: TENSION: / TWIST: / OPENING IMAGE:"
}

/// The fact checker of a eucatastrophe.
pub open spec fn euca_fact_check_system_text() -> Seq<char> {
    "You are a campaign fact-checker. Read all session records provided. CHARACTERS: list every named character and one line on what they specifically did or endured — only facts from the files, no invention. ARC: 3 sentences on what has concretely happened across the sessions — events, decisions, losses. PEDANTIC RULE: use only names and events that appear verbatim in the files."@
}

pub fn euca_fact_check_system() -> (r: &'static str)
    ensures
        r@ == euca_fact_check_system_text(),
{
    "You are a campaign fact-checker. Read all session records provided. CHARACTERS: list every named character and one line on what they specifically did or endured — only facts from the files, no invention. ARC: 3 sentences on what has concretely happened across the sessions — events, decisions, losses. PEDANTIC RULE: use only names and events that appear verbatim in the files."
}

/// The grace finder of a eucatastrophe.
pub open spec fn grace_system_text() -> Seq<char> {
    "You are finding the eucatastrophe — the sudden unlooked-for grace (Tolkien's term) earned by long endurance. It is not a victory. It is a breath. A mercy. A door opening. Read the character arcs and session records. Identify:\nWEIGHT: what specific things have these specific characters lost, endured, or sacrificed.\nSEED: a small loyalty, act of honesty, or kept faith that has been present but unnoticed — something one of these characters actually did that contained grace.\nMOMENT: one sentence — a concrete image involving these specific characters where something unexpectedly good arrives that the long struggle earned. Name the character. Name the act.\nReply in three labelled lines: WEIGHT: / SEED: / MOMENT:"@
}

pub fn grace_system() -> (r: &'static str)
    ensures
        r@ == grace_system_text(),
{
    "You are finding the eucatastrophe — the sudden unlooked-for grace (Tolkien's term) earned by long endurance. It is not a victory. It is a breath. A mercy. A door opening. Read the character arcs and session records. Identify:\nWEIGHT: what specific things have these specific characters lost, endured, or sacrificed.\nSEED: a small loyalty, act of honesty, or kept faith that has been present but unnoticed — something one of these characters actually did that contained grace.\nMOMENT: one sentence — a concrete image involving these specific characters where something unexpectedly good arrives that the long struggle earned. Name the character. Name the act.\nReply in three labelled lines: WEIGHT: / SEED: / MOMENT:"
}

/// The scene architect of a eucatastrophe.
pub open spec fn beat_system_text() -> Seq<char> {
    "You are blocking a single scene beat. A MOMENT has been identified for you. Your only job is to make that MOMENT concrete and playable. Write four numbered lines and nothing else:\n1. WHERE: one sentence — the specific location and who is physically present.\n2. ACTION: one sentence — the single thing that happens. Specific verb. No vagueness.\n3. WORDS: the exact words spoken, if any. Write NONE if silence is right.\n4. LAST IMAGE: one specific object or gesture that ends the beat. Not a feeling. Not a meaning. A thing.\nDo not summarize the campaign. Do not add context. Work only from the MOMENT provided."@
}

pub fn beat_system() -> (r: &'static str)
    ensures
        r@ == beat_system_text(),
{
    "You are blocking a single scene beat. A MOMENT has been identified for you. Your only job is to make that MOMENT concrete and playable. Write four numbered lines and nothing else:\n1. WHERE: one sentence — the specific location and who is physically present.\n2. ACTION: one sentence — the single thing that happens. Specific verb. No vagueness.\n3. WORDS: the exact words spoken, if any. Write NONE if silence is right.\n4. LAST IMAGE: one specific object or gesture that ends the beat. Not a feeling. Not a meaning. A thing.\nDo not summarize the campaign. Do not add context. Work only from the MOMENT provided."
}

/// The writer of a eucatastrophe.
pub open spec fn euca_prose_system_text() -> Seq<char> {
    "You are writing a eucatastrophe scene — the sudden unlooked-for grace after long hardship. You have been given a scene skeleton. Render it in 2-3 paragraphs. RULES: (1) Render only what can be seen or heard. (2) Do not name what any character feels. (3) Do not use the words: hope, burden, glimmer, weight, tear, heart, soul, light, darkness, journey, struggle. (4) Do not explain what the moment means. (5) The last sentence must be a physical image — a specific object, gesture, or sound already present in the scene skeleton. Not a statement. Not a summary. (6) Do not introduce any object, person, or location not already named in the scene skeleton. Past tense. No headers. No game mechanics."@
}

pub fn euca_prose_system() -> (r: &'static str)
    ensures
        r@ == euca_prose_system_text(),
{
    "You are writing a eucatastrophe scene — the sudden unlooked-for grace after long hardship. You have been given a scene skeleton. Render it in 2-3 paragraphs. RULES: (1) Render only what can be seen or heard. (2) Do not name what any character feels. (3) Do not use the words: hope, burden, glimmer, weight, tear, heart, soul, light, darkness, journey, struggle. (4) Do not explain what the moment means. (5) The last sentence must be a physical image — a specific object, gesture, or sound already present in the scene skeleton. Not a statement. Not a summary. (6) Do not introduce any object, person, or location not already named in the scene skeleton. Past tense. No headers. No game mechanics."
}

/// The one-sentence summary of a eucatastrophe.
pub open spec fn euca_summary_system_text() -> Seq<char> {
    "Write one sentence describing what happened. Past tense. Name the characters. Capture the unexpected grace. Do NOT start with 'In turn' or 'In this scene'. One sentence only."@
}

pub fn euca_summary_system() -> (r: &'static str)
    ensures
        r@ == euca_summary_system_text(),
{
    "Write one sentence describing what happened. Past tense. Name the characters. Capture the unexpected grace. Do NOT start with 'In turn' or 'In this scene'. One sentence only."
}

/// The condenser of the older scene-summary endpoint.
pub open spec fn legacy_condense_system_text() -> Seq<char> {
    "You are condensing one turn from a TTRPG campaign. The log below has structured sections: What Happened (grounded facts), Rules Assessor (ability used), Dice (roll result), and DM Response. Write exactly 1-2 sentences in past tense: who acted, what ability was rolled and whether it succeeded or failed, and what changed. Use only names that appear in the What Happened section."@
}

pub fn legacy_condense_system() -> (r: &'static str)
    ensures
        r@ == legacy_condense_system_text(),
{
    "You are condensing one turn from a TTRPG campaign. The log below has structured sections: What Happened (grounded facts), Rules Assessor (ability used), Dice (roll result), and DM Response. Write exactly 1-2 sentences in past tense: who acted, what ability was rolled and whether it succeeded or failed, and what changed. Use only names that appear in the What Happened section."
}

/// The one-sentence summary of a player turn.
pub open spec fn player_summarize_system_text() -> Seq<char> {
    "Write one sentence: who did what, and what was the outcome. Past tense. Use the character's full name exactly as given. If a roll shaped the scene, say so briefly. Do NOT start with 'In turn', 'In this scene', or any meta-framing. One sentence only."@
}

pub fn player_summarize_system() -> (r: &'static str)
    ensures
        r@ == player_summarize_system_text(),
{
    "Write one sentence: who did what, and what was the outcome. Past tense. Use the character's full name exactly as given. If a roll shaped the scene, say so briefly. Do NOT start with 'In turn', 'In this scene', or any meta-framing. One sentence only."
}

/// The writer of the older scene-summary endpoint.
pub open spec fn legacy_record_system_text() -> Seq<char> {
    "You are writing a scene record for a TTRPG campaign log. You will be given one factual sentence per turn. Write 2-4 sentences of past-tense prose that covers only what those sentences describe. RULES: (1) Use character names exactly as given — no added titles, roles, or descriptors. (2) Do not add events, locations, or characters not present in the input. (3) If a dice roll is mentioned, name the ability and whether it succeeded or failed. (4) Do not invent atmosphere, motivation, or consequences beyond what is stated. Output only the prose. Nothing else."@
}

pub fn legacy_record_system() -> (r: &'static str)
    ensures
        r@ == legacy_record_system_text(),
{
    "You are writing a scene record for a TTRPG campaign log. You will be given one factual sentence per turn. Write 2-4 sentences of past-tense prose that covers only what those sentences describe. RULES: (1) Use character names exactly as given — no added titles, roles, or descriptors. (2) Do not add events, locations, or characters not present in the input. (3) If a dice roll is mentioned, name the ability and whether it succeeded or failed. (4) Do not invent atmosphere, motivation, or consequences beyond what is stated. Output only the prose. Nothing else."
}

/// What a thinker reads: the campaign facts and the intent.
pub open spec fn thinker_user_text(campaign_facts: Seq<char>, intent: Seq<char>) -> Seq<char> {
    campaign_facts + "\n\nDM Intent: "@ + intent
}

pub fn thinker_user(campaign_facts: &str, intent: &str) -> (r: String)
    ensures
        r@ == thinker_user_text(campaign_facts@, intent@),
{
    let mut r = owned(campaign_facts);
    push_str(&mut r, "\n\nDM Intent: ");
    push_str(&mut r, intent);
    r
}

/// What the critic reads.
pub open spec fn critic_user_text(intent: Seq<char>, thought: Seq<char>) -> Seq<char> {
    "Intent: "@ + intent + "\n\nThinker:\n"@ + thought
}

pub fn critic_user(intent: &str, thought: &str) -> (r: String)
    ensures
        r@ == critic_user_text(intent@, thought@),
{
    let mut r = owned("Intent: ");
    push_str(&mut r, intent);
    push_str(&mut r, "\n\nThinker:\n");
    push_str(&mut r, thought);
    r
}

/// What the rules-lawyer query reads.
pub open spec fn rule_query_user_text(intent: Seq<char>, thought: Seq<char>, critique: Seq<char>) -> Seq<char> {
    "Intent: "@ + intent + "\nPlan: "@ + thought + "\nCritique: "@ + critique
}

pub fn rule_query_user(intent: &str, thought: &str, critique: &str) -> (r: String)
    ensures
        r@ == rule_query_user_text(intent@, thought@, critique@),
{
    let mut r = owned("Intent: ");
    push_str(&mut r, intent);
    push_str(&mut r, "\nPlan: ");
    push_str(&mut r, thought);
    push_str(&mut r, "\nCritique: ");
    push_str(&mut r, critique);
    r
}

/// What the file selection reads.
pub open spec fn file_selection_user_text(intent: Seq<char>, thought: Seq<char>, files_list: Seq<char>) -> Seq<char> {
    "Intent: "@ + intent + "\nPlan: "@ + thought + "\nAvailable files: ["@ + files_list + "]"@
}

pub fn file_selection_user(intent: &str, thought: &str, files_list: &str) -> (r: String)
    ensures
        r@ == file_selection_user_text(intent@, thought@, files_list@),
{
    let mut r = owned("Intent: ");
    push_str(&mut r, intent);
    push_str(&mut r, "\nPlan: ");
    push_str(&mut r, thought);
    push_str(&mut r, "\nAvailable files: [");
    push_str(&mut r, files_list);
    push_str(&mut r, "]");
    r
}

/// What the dice list reads.
pub open spec fn dice_list_user_text(intent: Seq<char>, thought: Seq<char>, tool_context: Seq<char>) -> Seq<char> {
    "Intent: "@ + intent + "\nPlan: "@ + thought + tool_context
}

pub fn dice_list_user(intent: &str, thought: &str, tool_context: &str) -> (r: String)
    ensures
        r@ == dice_list_user_text(intent@, thought@, tool_context@),
{
    let mut r = owned("Intent: ");
    push_str(&mut r, intent);
    push_str(&mut r, "\nPlan: ");
    push_str(&mut r, thought);
    push_str(&mut r, tool_context);
    r
}

/// What the action summary reads.
pub open spec fn action_summary_user_text(intent: Seq<char>, thought: Seq<char>, critique: Seq<char>, tool_context: Seq<char>) -> Seq<char> {
    "Intent: "@ + intent + "\nPlan: "@ + thought + "\nCritique: "@ + critique + tool_context
}

pub fn action_summary_user(intent: &str, thought: &str, critique: &str, tool_context: &str) -> (r: String)
    ensures
        r@ == action_summary_user_text(intent@, thought@, critique@, tool_context@),
{
    let mut r = owned("Intent: ");
    push_str(&mut r, intent);
    push_str(&mut r, "\nPlan: ");
    push_str(&mut r, thought);
    push_str(&mut r, "\nCritique: ");
    push_str(&mut r, critique);
    push_str(&mut r, tool_context);
    r
}

/// The task a think-and-run hands its DM agent.
pub open spec fn think_dm_task_text(campaign_facts: Seq<char>, intent: Seq<char>, tool_context: Seq<char>, action_summary: Seq<char>) -> Seq<char> {
    "CAMPAIGN CONTEXT:\n"@ + campaign_facts + "\n\nTASK: "@ + intent + "\n\n=== PRE-COMPUTED CONTEXT ===\n"@ + tool_context + "\n\nACTION SUMMARY:\n"@ + action_summary + "\n\nWrite immersive prose for this scene using ONLY the characters and setting from the campaign context above. Use the dice results as-is. 3-5 paragraphs. DO NOT explain your reasoning. DO NOT call tools. Just write the scene."@
}

pub fn think_dm_task(campaign_facts: &str, intent: &str, tool_context: &str, action_summary: &str) -> (r: String)
    ensures
        r@ == think_dm_task_text(campaign_facts@, intent@, tool_context@, action_summary@),
{
    let mut r = owned("CAMPAIGN CONTEXT:\n");
    push_str(&mut r, campaign_facts);
    push_str(&mut r, "\n\nTASK: ");
    push_str(&mut r, intent);
    push_str(&mut r, "\n\n=== PRE-COMPUTED CONTEXT ===\n");
    push_str(&mut r, tool_context);
    push_str(&mut r, "\n\nACTION SUMMARY:\n");
    push_str(&mut r, action_summary);
    push_str(&mut r, "\n\nWrite immersive prose for this scene using ONLY the characters and setting from the campaign context above. Use the dice results as-is. 3-5 paragraphs. DO NOT explain your reasoning. DO NOT call tools. Just write the scene.");
    r
}

/// The DM agent of a think-and-run, when its definition has no system prompt.
pub open spec fn think_dm_system_text(campaign_name: Seq<char>) -> Seq<char> {
    "You are the DM for the "@ + campaign_name + " campaign. Write immersive prose true to the campaign's tone. Always save your output to a campaign file."@
}

pub fn think_dm_system(campaign_name: &str) -> (r: String)
    ensures
        r@ == think_dm_system_text(campaign_name@),
{
    let mut r = owned("You are the DM for the ");
    push_str(&mut r, campaign_name);
    push_str(&mut r, " campaign. Write immersive prose true to the campaign's tone. Always save your output to a campaign file.");
    r
}

/// What the fact checker of a session turn reads.
pub open spec fn session_fact_check_user_text(intent: Seq<char>, grounding_block: Seq<char>) -> Seq<char> {
    "Intent: "@ + intent + "\n\n"@ + grounding_block
}

pub fn session_fact_check_user(intent: &str, grounding_block: &str) -> (r: String)
    ensures
        r@ == session_fact_check_user_text(intent@, grounding_block@),
{
    let mut r = owned("Intent: ");
    push_str(&mut r, intent);
    push_str(&mut r, "\n\n");
    push_str(&mut r, grounding_block);
    r
}

/// What the rules lawyer of a session turn reads.
pub open spec fn session_rules_user_text(intent: Seq<char>, critic_context: Seq<char>, rules_text: Seq<char>) -> Seq<char> {
    "Intent: "@ + intent + "\nContext:\n"@ + critic_context + "\n\nRules:\n"@ + rules_text
}

pub fn session_rules_user(intent: &str, critic_context: &str, rules_text: &str) -> (r: String)
    ensures
        r@ == session_rules_user_text(intent@, critic_context@, rules_text@),
{
    let mut r = owned("Intent: ");
    push_str(&mut r, intent);
    push_str(&mut r, "\nContext:\n");
    push_str(&mut r, critic_context);
    push_str(&mut r, "\n\nRules:\n");
    push_str(&mut r, rules_text);
    r
}

/// The DM writer of a session turn, when its definition has no system prompt.
pub open spec fn session_dm_system_text(campaign_name: Seq<char>) -> Seq<char> {
    "You are the DM for the "@ + campaign_name + " campaign. Write immersive prose true to the campaign's tone and characters."@
}

pub fn session_dm_system(campaign_name: &str) -> (r: String)
    ensures
        r@ == session_dm_system_text(campaign_name@),
{
    let mut r = owned("You are the DM for the ");
    push_str(&mut r, campaign_name);
    push_str(&mut r, " campaign. Write immersive prose true to the campaign's tone and characters.");
    r
}

/// What the DM writer of a session turn reads.
pub open spec fn session_dm_user_text(campaign_facts: Seq<char>, critic_context: Seq<char>, dice_context: Seq<char>, intent: Seq<char>) -> Seq<char> {
    "CAMPAIGN:\n"@ + campaign_facts + "\n\nGROUNDED FACTS (from actual files — use ONLY these names and events):\n"@ + critic_context + "\n\nDICE OUTCOMES (these already happened — let them shape the scene):\n"@ + dice_context + "\n\nTASK: "@ + intent + "\n\nCRITICAL: The grounded facts above are the current state of the world. The scene picks up from there. Do NOT re-describe or re-resolve events that already happened. Write immersive prose. Let the dice outcomes determine what succeeds and what fails. 3-5 paragraphs. OUTPUT ONLY NARRATIVE PROSE. No JSON. No tool calls. No structured data. No explanations. Just the scene."@
}

pub fn session_dm_user(campaign_facts: &str, critic_context: &str, dice_context: &str, intent: &str) -> (r: String)
    ensures
        r@ == session_dm_user_text(campaign_facts@, critic_context@, dice_context@, intent@),
{
    let mut r = owned("CAMPAIGN:\n");
    push_str(&mut r, campaign_facts);
    push_str(&mut r, "\n\nGROUNDED FACTS (from actual files — use ONLY these names and events):\n");
    push_str(&mut r, critic_context);
    push_str(&mut r, "\n\nDICE OUTCOMES (these already happened — let them shape the scene):\n");
    push_str(&mut r, dice_context);
    push_str(&mut r, "\n\nTASK: ");
    push_str(&mut r, intent);
    push_str(&mut r, "\n\nCRITICAL: The grounded facts above are the current state of the world. The scene picks up from there. Do NOT re-describe or re-resolve events that already happened. Write immersive prose. Let the dice outcomes determine what succeeds and what fails. 3-5 paragraphs. OUTPUT ONLY NARRATIVE PROSE. No JSON. No tool calls. No structured data. No explanations. Just the scene.");
    r
}

/// What the fact checker of a player turn reads.
pub open spec fn player_fact_check_user_text(character: Seq<char>, action: Seq<char>, grounding_block: Seq<char>) -> Seq<char> {
    "Acting character: "@ + character + "\nPlayer action: "@ + action + "\n\n"@ + grounding_block
}

pub fn player_fact_check_user(character: &str, action: &str, grounding_block: &str) -> (r: String)
    ensures
        r@ == player_fact_check_user_text(character@, action@, grounding_block@),
{
    let mut r = owned("Acting character: ");
    push_str(&mut r, character);
    push_str(&mut r, "\nPlayer action: ");
    push_str(&mut r, action);
    push_str(&mut r, "\n\n");
    push_str(&mut r, grounding_block);
    r
}

/// What the rules assessor of a player turn reads.
pub open spec fn player_rules_user_text(character: Seq<char>, action: Seq<char>, party_text: Seq<char>, dice_rules: Seq<char>) -> Seq<char> {
    "Character: "@ + character + "\nAction: "@ + action + "\n\nParty Stats:\n"@ + party_text + "\n\nRules:\n"@ + dice_rules + "\n\nDoes this action need a check? If yes, output exactly:\nROLL|"@ + character + "|STAT_NAME|1d20+N|22|what it determines\nReplace STAT_NAME with the ability used (e.g. OFFERING, PRESENCE, BLADE).\nReplace N with the integer from the stat line. Examples:\nOFFERING +3 → 1d20+3\nPRESENCE +3 with Devotion rating 1 → 1d20+4\nBLADE +4 → 1d20+4\nReplace 22 with the appropriate difficulty: 10, 14, 18, 22, or 26\nIf no check needed: NO_ROLL\nRESPOND WITH ONLY THE ROLL| LINE OR NO_ROLL:"@
}

pub fn player_rules_user(character: &str, action: &str, party_text: &str, dice_rules: &str) -> (r: String)
    ensures
        r@ == player_rules_user_text(character@, action@, party_text@, dice_rules@),
{
    let mut r = owned("Character: ");
    push_str(&mut r, character);
    push_str(&mut r, "\nAction: ");
    push_str(&mut r, action);
    push_str(&mut r, "\n\nParty Stats:\n");
    push_str(&mut r, party_text);
    push_str(&mut r, "\n\nRules:\n");
    push_str(&mut r, dice_rules);
    push_str(&mut r, "\n\nDoes this action need a check? If yes, output exactly:\nROLL|");
    push_str(&mut r, character);
    push_str(&mut r, "|STAT_NAME|1d20+N|22|what it determines\nReplace STAT_NAME with the ability used (e.g. OFFERING, PRESENCE, BLADE).\nReplace N with the integer from the stat line. Examples:\nOFFERING +3 → 1d20+3\nPRESENCE +3 with Devotion rating 1 → 1d20+4\nBLADE +4 → 1d20+4\nReplace 22 with the appropriate difficulty: 10, 14, 18, 22, or 26\nIf no check needed: NO_ROLL\nRESPOND WITH ONLY THE ROLL| LINE OR NO_ROLL:");
    r
}

/// The DM writer of a player turn or of the scene pipeline, when its definition has no system prompt.
pub open spec fn dm_respond_system_text(campaign_name: Seq<char>) -> Seq<char> {
    "You are the DM for the "@ + campaign_name + " campaign. Respond to player actions with immersive prose true to the campaign's tone."@
}

pub fn dm_respond_system(campaign_name: &str) -> (r: String)
    ensures
        r@ == dm_respond_system_text(campaign_name@),
{
    let mut r = owned("You are the DM for the ");
    push_str(&mut r, campaign_name);
    push_str(&mut r, " campaign. Respond to player actions with immersive prose true to the campaign's tone.");
    r
}

/// What the DM writer of a player turn reads.
pub open spec fn player_dm_user_text(campaign_facts: Seq<char>, critic_context: Seq<char>, dice_context: Seq<char>, character: Seq<char>, action: Seq<char>) -> Seq<char> {
    "CAMPAIGN:\n"@ + campaign_facts + "\n\nGROUNDED FACTS (use ONLY these names and events):\n"@ + critic_context + "\n\nDICE OUTCOMES (already happened — let them shape what follows):\n"@ + dice_context + "\n\nPLAYER ACTION: "@ + character + " — "@ + action + "\n\nCRITICAL: The grounded facts above are the current state of the world. The scene picks up from there. Do NOT re-describe or re-resolve events that already happened. Narrate only what happens next in response to this action. What does the character experience? What changes? What does the world do back? Let dice outcomes determine success and failure. Write in second person (\"you\") if the scene benefits from it, or third if more fitting. 3-5 paragraphs. OUTPUT ONLY NARRATIVE PROSE. No JSON. No tool calls. No structured data. No explanations. Just the scene."@
}

pub fn player_dm_user(campaign_facts: &str, critic_context: &str, dice_context: &str, character: &str, action: &str) -> (r: String)
    ensures
        r@ == player_dm_user_text(campaign_facts@, critic_context@, dice_context@, character@, action@),
{
    let mut r = owned("CAMPAIGN:\n");
    push_str(&mut r, campaign_facts);
    push_str(&mut r, "\n\nGROUNDED FACTS (use ONLY these names and events):\n");
    push_str(&mut r, critic_context);
    push_str(&mut r, "\n\nDICE OUTCOMES (already happened — let them shape what follows):\n");
    push_str(&mut r, dice_context);
    push_str(&mut r, "\n\nPLAYER ACTION: ");
    push_str(&mut r, character);
    push_str(&mut r, " — ");
    push_str(&mut r, action);
    push_str(&mut r, "\n\nCRITICAL: The grounded facts above are the current state of the world. The scene picks up from there. Do NOT re-describe or re-resolve events that already happened. Narrate only what happens next in response to this action. What does the character experience? What changes? What does the world do back? Let dice outcomes determine success and failure. Write in second person (\"you\") if the scene benefits from it, or third if more fitting. 3-5 paragraphs. OUTPUT ONLY NARRATIVE PROSE. No JSON. No tool calls. No structured data. No explanations. Just the scene.");
    r
}

/// What the condenser of a session recap reads.
pub open spec fn session_condense_user_text(label: Seq<char>, text: Seq<char>) -> Seq<char> {
    "Scene: "@ + label + "\n\n"@ + text
}

pub fn session_condense_user(label: &str, text: &str) -> (r: String)
    ensures
        r@ == session_condense_user_text(label@, text@),
{
    let mut r = owned("Scene: ");
    push_str(&mut r, label);
    push_str(&mut r, "\n\n");
    push_str(&mut r, text);
    r
}

/// What the writer of a session recap reads.
pub open spec fn session_record_user_text(campaign_name: Seq<char>, session_dir: Seq<char>, condensed: Seq<char>) -> Seq<char> {
    "Campaign: "@ + campaign_name + "\nSession: "@ + session_dir + "\n\nScene summaries:\n"@ + condensed
}

pub fn session_record_user(campaign_name: &str, session_dir: &str, condensed: &str) -> (r: String)
    ensures
        r@ == session_record_user_text(campaign_name@, session_dir@, condensed@),
{
    let mut r = owned("Campaign: ");
    push_str(&mut r, campaign_name);
    push_str(&mut r, "\nSession: ");
    push_str(&mut r, session_dir);
    push_str(&mut r, "\n\nScene summaries:\n");
    push_str(&mut r, condensed);
    r
}

/// What the twist finder reads.
pub open spec fn twist_user_text(campaign_name: Seq<char>, hook_session: Seq<char>, hook_text: Seq<char>) -> Seq<char> {
    "Campaign: "@ + campaign_name + "\nPrevious session: "@ + hook_session + "\n\n"@ + hook_text
}

pub fn twist_user(campaign_name: &str, hook_session: &str, hook_text: &str) -> (r: String)
    ensures
        r@ == twist_user_text(campaign_name@, hook_session@, hook_text@),
{
    let mut r = owned("Campaign: ");
    push_str(&mut r, campaign_name);
    push_str(&mut r, "\nPrevious session: ");
    push_str(&mut r, hook_session);
    push_str(&mut r, "\n\n");
    push_str(&mut r, hook_text);
    r
}

/// The DM writer of a grand opener, when its definition has no system prompt.
pub open spec fn opener_dm_system_text(campaign_name: Seq<char>) -> Seq<char> {
    "You are the DM for the "@ + campaign_name + " campaign."@
}

pub fn opener_dm_system(campaign_name: &str) -> (r: String)
    ensures
        r@ == opener_dm_system_text(campaign_name@),
{
    let mut r = owned("You are the DM for the ");
    push_str(&mut r, campaign_name);
    push_str(&mut r, " campaign.");
    r
}

/// What the DM writer of a grand opener reads.
pub open spec fn opening_user_text(next_session: Seq<char>, campaign_name: Seq<char>, hook_text: Seq<char>, twist: Seq<char>) -> Seq<char> {
    "You are opening "@ + next_session + " of the "@ + campaign_name + " campaign. Write 3-4 paragraphs of past-tense prose that: opens in the middle of a moment of tension — no waking up, no arriving, no recap; names the characters using only names from the session record; introduces the dark complication naturally without announcing it; ends on a concrete unanswered question. No headers. No DM commentary. Only narrative prose.\n\nSession record:\n"@ + hook_text + "\n\nTwist analysis:\n"@ + twist
}

pub fn opening_user(next_session: &str, campaign_name: &str, hook_text: &str, twist: &str) -> (r: String)
    ensures
        r@ == opening_user_text(next_session@, campaign_name@, hook_text@, twist@),
{
    let mut r = owned("You are opening ");
    push_str(&mut r, next_session);
    push_str(&mut r, " of the ");
    push_str(&mut r, campaign_name);
    push_str(&mut r, " campaign. Write 3-4 paragraphs of past-tense prose that: opens in the middle of a moment of tension — no waking up, no arriving, no recap; names the characters using only names from the session record; introduces the dark complication naturally without announcing it; ends on a concrete unanswered question. No headers. No DM commentary. Only narrative prose.\n\nSession record:\n");
    push_str(&mut r, hook_text);
    push_str(&mut r, "\n\nTwist analysis:\n");
    push_str(&mut r, twist);
    r
}

/// What the fact checker of a eucatastrophe reads.
pub open spec fn euca_fact_check_user_text(campaign_name: Seq<char>, npcs_text: Seq<char>, combined: Seq<char>) -> Seq<char> {
    "Campaign: "@ + campaign_name + "\n\nNPCs:\n"@ + npcs_text + "\n\nSession records:\n"@ + combined
}

pub fn euca_fact_check_user(campaign_name: &str, npcs_text: &str, combined: &str) -> (r: String)
    ensures
        r@ == euca_fact_check_user_text(campaign_name@, npcs_text@, combined@),
{
    let mut r = owned("Campaign: ");
    push_str(&mut r, campaign_name);
    push_str(&mut r, "\n\nNPCs:\n");
    push_str(&mut r, npcs_text);
    push_str(&mut r, "\n\nSession records:\n");
    push_str(&mut r, combined);
    r
}

/// What the grace finder reads.
pub open spec fn grace_user_text(campaign_name: Seq<char>, critic_context: Seq<char>, combined: Seq<char>) -> Seq<char> {
    "Campaign: "@ + campaign_name + "\n\nCharacter arcs:\n"@ + critic_context + "\n\nFull arc:\n"@ + combined
}

pub fn grace_user(campaign_name: &str, critic_context: &str, combined: &str) -> (r: String)
    ensures
        r@ == grace_user_text(campaign_name@, critic_context@, combined@),
{
    let mut r = owned("Campaign: ");
    push_str(&mut r, campaign_name);
    push_str(&mut r, "\n\nCharacter arcs:\n");
    push_str(&mut r, critic_context);
    push_str(&mut r, "\n\nFull arc:\n");
    push_str(&mut r, combined);
    r
}

/// What the scene architect reads.
pub open spec fn beat_user_text(moment: Seq<char>, critic_context: Seq<char>) -> Seq<char> {
    "MOMENT: "@ + moment + "\n\nCharacter names available: "@ + critic_context
}

pub fn beat_user(moment: &str, critic_context: &str) -> (r: String)
    ensures
        r@ == beat_user_text(moment@, critic_context@),
{
    let mut r = owned("MOMENT: ");
    push_str(&mut r, moment);
    push_str(&mut r, "\n\nCharacter names available: ");
    push_str(&mut r, critic_context);
    r
}

/// What the writer of a eucatastrophe reads.
pub open spec fn euca_prose_user_text(campaign_name: Seq<char>, skeleton: Seq<char>, critic_context: Seq<char>) -> Seq<char> {
    "Campaign: "@ + campaign_name + "\n\nScene skeleton:\n"@ + skeleton + "\n\nCharacter facts:\n"@ + critic_context
}

pub fn euca_prose_user(campaign_name: &str, skeleton: &str, critic_context: &str) -> (r: String)
    ensures
        r@ == euca_prose_user_text(campaign_name@, skeleton@, critic_context@),
{
    let mut r = owned("Campaign: ");
    push_str(&mut r, campaign_name);
    push_str(&mut r, "\n\nScene skeleton:\n");
    push_str(&mut r, skeleton);
    push_str(&mut r, "\n\nCharacter facts:\n");
    push_str(&mut r, critic_context);
    r
}

/// What the writer of a scene opener reads.
pub open spec fn scene_opener_user_text(campaign_name: Seq<char>, session_dir: Seq<char>, scene: Seq<char>, context_block: Seq<char>) -> Seq<char> {
    "You are the GM for the "@ + campaign_name + " campaign. You are opening a new scene: "@ + session_dir + "/"@ + scene + ".\n\nContext from prior play:\n"@ + context_block + "\n\nWrite a scene opener markdown document with EXACTLY this structure (no deviations):\n\nFirst: A one-paragraph recap of what has just happened (2-4 sentences, past tense).\n\nSecond: Two paragraphs of opening atmosphere and situation — where the characters find themselves, what is at stake, what the world looks like right now. Vivid, sensory, present tense.\n\nThird: Exactly this line (fill in the character names from party.md, only those who are active or present):\n**Characters:** Name1, Name2, Name3\n\nFourth: A section headed exactly:\n## Recommended Paths\nOne bullet per character listed above. Format: `- **CharacterName**: [one specific action or investigation the scene naturally invites for them, rooted in their Devotion and the current situation]`\n\nRULES: Use only names and facts from the context. Do not invent new NPCs. Do not add headers beyond ## Recommended Paths. Do not add commentary. Do NOT wrap the output in a code block or backticks.\n\nOUTPUT THE DOCUMENT ONLY. No preamble. No backticks."@
}

pub fn scene_opener_user(campaign_name: &str, session_dir: &str, scene: &str, context_block: &str) -> (r: String)
    ensures
        r@ == scene_opener_user_text(campaign_name@, session_dir@, scene@, context_block@),
{
    let mut r = owned("You are the GM for the ");
    push_str(&mut r, campaign_name);
    push_str(&mut r, " campaign. You are opening a new scene: ");
    push_str(&mut r, session_dir);
    push_str(&mut r, "/");
    push_str(&mut r, scene);
    push_str(&mut r, ".\n\nContext from prior play:\n");
    push_str(&mut r, context_block);
    push_str(&mut r, "\n\nWrite a scene opener markdown document with EXACTLY this structure (no deviations):\n\nFirst: A one-paragraph recap of what has just happened (2-4 sentences, past tense).\n\nSecond: Two paragraphs of opening atmosphere and situation — where the characters find themselves, what is at stake, what the world looks like right now. Vivid, sensory, present tense.\n\nThird: Exactly this line (fill in the character names from party.md, only those who are active or present):\n**Characters:** Name1, Name2, Name3\n\nFourth: A section headed exactly:\n## Recommended Paths\nOne bullet per character listed above. Format: `- **CharacterName**: [one specific action or investigation the scene naturally invites for them, rooted in their Devotion and the current situation]`\n\nRULES: Use only names and facts from the context. Do not invent new NPCs. Do not add headers beyond ## Recommended Paths. Do not add commentary. Do NOT wrap the output in a code block or backticks.\n\nOUTPUT THE DOCUMENT ONLY. No preamble. No backticks.");
    r
}

/// The writer of a scene opener.
pub open spec fn scene_opener_system_text(campaign_name: Seq<char>) -> Seq<char> {
    "You are a skilled GM for the "@ + campaign_name + " campaign. Write focused, atmospheric scene openers that ground players in the current situation."@
}

pub fn scene_opener_system(campaign_name: &str) -> (r: String)
    ensures
        r@ == scene_opener_system_text(campaign_name@),
{
    let mut r = owned("You are a skilled GM for the ");
    push_str(&mut r, campaign_name);
    push_str(&mut r, " campaign. Write focused, atmospheric scene openers that ground players in the current situation.");
    r
}

// ─────────────────────────────── meta logs ─────────────────────────────────

/// One section of a run's meta log: its label and what the step produced.
pub open spec fn meta_section_text(label: Seq<char>, body: Seq<char>) -> Seq<char> {
    "\n## "@ + label + "\n"@ + body + "\n"@
}

pub fn meta_section(label: &str, body: &str) -> (r: String)
    ensures
        r@ == meta_section_text(label@, body@),
{
    let mut r = owned("\n## ");
    push_str(&mut r, label);
    push_str(&mut r, "\n");
    push_str(&mut r, body);
    push_str(&mut r, "\n");
    r
}

/// One line of the session notes a think-and-run writes.
pub open spec fn note_line_text(time: Seq<char>, prefix: Seq<char>, text: Seq<char>) -> Seq<char> {
    "**["@ + time + "] "@ + prefix + "** "@ + text + "\n\n"@
}

pub fn note_line(time: &str, prefix: &str, text: &str) -> (r: String)
    ensures
        r@ == note_line_text(time@, prefix@, text@),
{
    let mut r = owned("**[");
    push_str(&mut r, time);
    push_str(&mut r, "] ");
    push_str(&mut r, prefix);
    push_str(&mut r, "** ");
    push_str(&mut r, text);
    push_str(&mut r, "\n\n");
    r
}

/// The meta-log header of a session turn.
pub open spec fn turn_meta_header_text(intent: Seq<char>, campaign: Seq<char>, session: Seq<char>, file: Seq<char>, time: Seq<char>) -> Seq<char> {
    "# Turn: "@ + intent + "\n**Campaign:** "@ + campaign + "  **Session:** "@ + session + "  **File:** "@ + file + "  **Time:** "@ + time + "\n"@
}

pub fn turn_meta_header(intent: &str, campaign: &str, session: &str, file: &str, time: &str) -> (r: String)
    ensures
        r@ == turn_meta_header_text(intent@, campaign@, session@, file@, time@),
{
    let mut r = owned("# Turn: ");
    push_str(&mut r, intent);
    push_str(&mut r, "\n**Campaign:** ");
    push_str(&mut r, campaign);
    push_str(&mut r, "  **Session:** ");
    push_str(&mut r, session);
    push_str(&mut r, "  **File:** ");
    push_str(&mut r, file);
    push_str(&mut r, "  **Time:** ");
    push_str(&mut r, time);
    push_str(&mut r, "\n");
    r
}

/// The meta-log header of a player turn.
pub open spec fn player_meta_header_text(character: Seq<char>, action: Seq<char>, campaign: Seq<char>, session: Seq<char>, file: Seq<char>, time: Seq<char>) -> Seq<char> {
    "# Player Turn: "@ + character + " — "@ + action + "\n**Campaign:** "@ + campaign + "  **Session:** "@ + session + "  **File:** "@ + file + "  **Time:** "@ + time + "\n"@
}

pub fn player_meta_header(character: &str, action: &str, campaign: &str, session: &str, file: &str, time: &str) -> (r: String)
    ensures
        r@ == player_meta_header_text(character@, action@, campaign@, session@, file@, time@),
{
    let mut r = owned("# Player Turn: ");
    push_str(&mut r, character);
    push_str(&mut r, " — ");
    push_str(&mut r, action);
    push_str(&mut r, "\n**Campaign:** ");
    push_str(&mut r, campaign);
    push_str(&mut r, "  **Session:** ");
    push_str(&mut r, session);
    push_str(&mut r, "  **File:** ");
    push_str(&mut r, file);
    push_str(&mut r, "  **Time:** ");
    push_str(&mut r, time);
    push_str(&mut r, "\n");
    r
}

/// The meta-log header of a session recap.
pub open spec fn session_summary_meta_header_text(session: Seq<char>, campaign: Seq<char>, file: Seq<char>, time: Seq<char>) -> Seq<char> {
    "# Session Summary: "@ + session + "\n**Campaign:** "@ + campaign + "  **Session:** "@ + session + "  **File:** "@ + file + "  **Time:** "@ + time + "\n"@
}

pub fn session_summary_meta_header(session: &str, campaign: &str, file: &str, time: &str) -> (r: String)
    ensures
        r@ == session_summary_meta_header_text(session@, campaign@, file@, time@),
{
    let mut r = owned("# Session Summary: ");
    push_str(&mut r, session);
    push_str(&mut r, "\n**Campaign:** ");
    push_str(&mut r, campaign);
    push_str(&mut r, "  **Session:** ");
    push_str(&mut r, session);
    push_str(&mut r, "  **File:** ");
    push_str(&mut r, file);
    push_str(&mut r, "  **Time:** ");
    push_str(&mut r, time);
    push_str(&mut r, "\n");
    r
}

/// The meta-log header of a grand opener.
pub open spec fn opener_meta_header_text(next_session: Seq<char>, campaign: Seq<char>, hook: Seq<char>, time: Seq<char>) -> Seq<char> {
    "# Grand Opener: "@ + next_session + "\n**Campaign:** "@ + campaign + "  **Hook:** "@ + hook + "  **Time:** "@ + time + "\n"@
}

pub fn opener_meta_header(next_session: &str, campaign: &str, hook: &str, time: &str) -> (r: String)
    ensures
        r@ == opener_meta_header_text(next_session@, campaign@, hook@, time@),
{
    let mut r = owned("# Grand Opener: ");
    push_str(&mut r, next_session);
    push_str(&mut r, "\n**Campaign:** ");
    push_str(&mut r, campaign);
    push_str(&mut r, "  **Hook:** ");
    push_str(&mut r, hook);
    push_str(&mut r, "  **Time:** ");
    push_str(&mut r, time);
    push_str(&mut r, "\n");
    r
}

/// The meta-log header of a eucatastrophe (`sessions` joined by `, `).
pub open spec fn euca_meta_header_text(next_session: Seq<char>, campaign: Seq<char>, sessions: Seq<char>, time: Seq<char>) -> Seq<char> {
    "# Eucatastrophe: "@ + next_session + "\n**Campaign:** "@ + campaign + "  **Sessions:** "@ + sessions + "  **Time:** "@ + time + "\n"@
}

pub fn euca_meta_header(next_session: &str, campaign: &str, sessions: &str, time: &str) -> (r: String)
    ensures
        r@ == euca_meta_header_text(next_session@, campaign@, sessions@, time@),
{
    let mut r = owned("# Eucatastrophe: ");
    push_str(&mut r, next_session);
    push_str(&mut r, "\n**Campaign:** ");
    push_str(&mut r, campaign);
    push_str(&mut r, "  **Sessions:** ");
    push_str(&mut r, sessions);
    push_str(&mut r, "  **Time:** ");
    push_str(&mut r, time);
    push_str(&mut r, "\n");
    r
}

/// The meta-log header of a scene opener.
pub open spec fn scene_opener_meta_header_text(session: Seq<char>, scene: Seq<char>, campaign: Seq<char>, time: Seq<char>) -> Seq<char> {
    "# Scene Opener: "@ + session + "/"@ + scene + "\n**Campaign:** "@ + campaign + "  **Session:** "@ + session + "  **Scene:** "@ + scene + "  **Time:** "@ + time + "\n"@
}

pub fn scene_opener_meta_header(session: &str, scene: &str, campaign: &str, time: &str) -> (r: String)
    ensures
        r@ == scene_opener_meta_header_text(session@, scene@, campaign@, time@),
{
    let mut r = owned("# Scene Opener: ");
    push_str(&mut r, session);
    push_str(&mut r, "/");
    push_str(&mut r, scene);
    push_str(&mut r, "\n**Campaign:** ");
    push_str(&mut r, campaign);
    push_str(&mut r, "  **Session:** ");
    push_str(&mut r, session);
    push_str(&mut r, "  **Scene:** ");
    push_str(&mut r, scene);
    push_str(&mut r, "  **Time:** ");
    push_str(&mut r, time);
    push_str(&mut r, "\n");
    r
}

/// The meta-log header of a scene summary.
pub open spec fn scene_summary_meta_header_text(session: Seq<char>, scene: Seq<char>, campaign: Seq<char>, time: Seq<char>) -> Seq<char> {
    "# Scene Summary: "@ + session + "/"@ + scene + "\n**Campaign:** "@ + campaign + "  **Time:** "@ + time + "\n"@
}

pub fn scene_summary_meta_header(session: &str, scene: &str, campaign: &str, time: &str) -> (r: String)
    ensures
        r@ == scene_summary_meta_header_text(session@, scene@, campaign@, time@),
{
    let mut r = owned("# Scene Summary: ");
    push_str(&mut r, session);
    push_str(&mut r, "/");
    push_str(&mut r, scene);
    push_str(&mut r, "\n**Campaign:** ");
    push_str(&mut r, campaign);
    push_str(&mut r, "  **Time:** ");
    push_str(&mut r, time);
    push_str(&mut r, "\n");
    r
}

/// The turn index a grand opener starts its new session with.
pub open spec fn opener_turns_index_text(campaign: Seq<char>, next_session: Seq<char>, time: Seq<char>) -> Seq<char> {
    "# "@ + campaign + " / "@ + next_session + " — Turn Index\n\n| # | Time (UTC) | Data plane | Control plane | Summary |\n|---|-----------|-----------|--------------|--------|\n| 1 | "@ + time + " | [turn01_opening.md](turn01_opening.md) | [.meta/turn01_opening.log](.meta/turn01_opening.log) | Grand Opener |\n"@
}

pub fn opener_turns_index(campaign: &str, next_session: &str, time: &str) -> (r: String)
    ensures
        r@ == opener_turns_index_text(campaign@, next_session@, time@),
{
    let mut r = owned("# ");
    push_str(&mut r, campaign);
    push_str(&mut r, " / ");
    push_str(&mut r, next_session);
    push_str(&mut r, " — Turn Index\n\n| # | Time (UTC) | Data plane | Control plane | Summary |\n|---|-----------|-----------|--------------|--------|\n| 1 | ");
    push_str(&mut r, time);
    push_str(&mut r, " | [turn01_opening.md](turn01_opening.md) | [.meta/turn01_opening.log](.meta/turn01_opening.log) | Grand Opener |\n");
    r
}

/// One rules file as a session turn's rules lawyer reads it.
pub open spec fn rules_file_section_text(name: Seq<char>, content: Seq<char>) -> Seq<char> {
    "### rules/"@ + name + "\n"@ + content + "\n\n"@
}

pub fn rules_file_section(name: &str, content: &str) -> (r: String)
    ensures
        r@ == rules_file_section_text(name@, content@),
{
    let mut r = owned("### rules/");
    push_str(&mut r, name);
    push_str(&mut r, "\n");
    push_str(&mut r, content);
    push_str(&mut r, "\n\n");
    r
}

/// The turn index a eucatastrophe starts its new session with (its summary
/// cut at 120 characters).
pub open spec fn euca_turns_index_text(campaign: Seq<char>, next_session: Seq<char>, time: Seq<char>, summary: Seq<char>) -> Seq<char> {
    "# "@ + campaign + " / "@ + next_session + " — Turn Index\n\n| # | Time (UTC) | Data plane | Control plane | Dice | Summary |\n|---|-----------|-----------|--------------|------|---------|\n| 1 | "@ + time + " | [turn01_eucatastrophe.md](turn01_eucatastrophe.md) | [.meta/turn01_eucatastrophe.log](.meta/turn01_eucatastrophe.log) | — | "@ + take_chars(summary, 120) + " |\n"@
}

pub fn euca_turns_index(campaign: &str, next_session: &str, time: &str, summary: &str) -> (r: String)
    ensures
        r@ == euca_turns_index_text(campaign@, next_session@, time@, summary@),
{
    let cut = take_prefix(summary, 120);
    let mut r = owned("# ");
    push_str(&mut r, campaign);
    push_str(&mut r, " / ");
    push_str(&mut r, next_session);
    push_str(&mut r, " — Turn Index\n\n| # | Time (UTC) | Data plane | Control plane | Dice | Summary |\n|---|-----------|-----------|--------------|------|---------|\n| 1 | ");
    push_str(&mut r, time);
    push_str(&mut r, " | [turn01_eucatastrophe.md](turn01_eucatastrophe.md) | [.meta/turn01_eucatastrophe.log](.meta/turn01_eucatastrophe.log) | — | ");
    push_str(&mut r, cut.as_str());
    push_str(&mut r, " |\n");
    r
}

// ─────────────────────────────── hook material ─────────────────────────────

/// One scene of the hook session: its name, its `scene_summary.md` when it
/// could be read, and its last `.meta/turn*.log` when there is one.
pub struct HookScene {
    pub name: String,
    pub summary: Option<String>,
    pub last_log: Option<String>,
}

pub open spec fn hook_scene_view(s: HookScene) -> (Seq<char>, Option<Seq<char>>, Option<Seq<char>>) {
    (
        s.name@,
        match s.summary { Some(t) => Some(t@), None => None },
        match s.last_log { Some(t) => Some(t@), None => None },
    )
}

pub open spec fn hook_scene_views(v: Seq<HookScene>) -> Seq<(Seq<char>, Option<Seq<char>>, Option<Seq<char>>)> {
    v.map_values(|s: HookScene| hook_scene_view(s))
}

/// What one scene adds to the hook material: its summary cut at 600
/// characters, then the summary line of its last turn log.
pub open spec fn scene_hook_parts(hook: Seq<char>, sc: (Seq<char>, Option<Seq<char>>, Option<Seq<char>>)) -> Seq<Seq<char>> {
    let a: Seq<Seq<char>> = match sc.1 {
        Some(t) => seq!["### "@ + hook + "/"@ + sc.0 + "/scene_summary.md\n"@ + take_chars(t, 600)],
        None => Seq::empty(),
    };
    let b: Seq<Seq<char>> = match sc.2 {
        Some(log) => match logged_summary_line(log) {
            Some(l) => seq!["### Last turn ("@ + sc.0 + ")\n"@ + l],
            None => Seq::empty(),
        },
        None => Seq::empty(),
    };
    a + b
}

pub open spec fn scenes_hook_parts(hook: Seq<char>, scenes: Seq<(Seq<char>, Option<Seq<char>>, Option<Seq<char>>)>) -> Seq<Seq<char>>
    decreases scenes.len(),
{
    if scenes.len() == 0 {
        Seq::empty()
    } else {
        scenes_hook_parts(hook, scenes.drop_last()) + scene_hook_parts(hook, scenes.last())
    }
}

/// The pieces of a grand opener's hook material: the hook session's
/// summary (when not empty), each scene's parts in order, and, when all of
/// that is empty, the last turn file cut at 1200 characters.
pub open spec fn hook_parts(
    hook: Seq<char>,
    session_summary: Seq<char>,
    scenes: Seq<(Seq<char>, Option<Seq<char>>, Option<Seq<char>>)>,
    last_turn: Option<(Seq<char>, Seq<char>)>,
) -> Seq<Seq<char>> {
    let head: Seq<Seq<char>> = if session_summary.len() > 0 {
        seq!["### "@ + hook + "/session_summary.md\n"@ + session_summary]
    } else {
        Seq::empty()
    };
    let parts = head + scenes_hook_parts(hook, scenes);
    if parts.len() == 0 {
        match last_turn {
            Some((f, t)) => seq!["### "@ + hook + "/"@ + f + " (fallback)\n"@ + take_chars(t, 1200)],
            None => Seq::empty(),
        }
    } else {
        parts
    }
}

/// The hook material a grand opener reads, its pieces separated by blank
/// lines; empty when the hook session holds nothing to open from.
pub open spec fn hook_material_text(
    hook: Seq<char>,
    session_summary: Seq<char>,
    scenes: Seq<(Seq<char>, Option<Seq<char>>, Option<Seq<char>>)>,
    last_turn: Option<(Seq<char>, Seq<char>)>,
) -> Seq<char> {
    join(hook_parts(hook, session_summary, scenes, last_turn), "\n\n"@)
}

fn push_view(v: &mut Vec<String>, x: String)
    ensures
        views(final(v)@) == views(old(v)@).push(x@),
{
    proof {
        lemma_views_push(v@, x);
    }
    v.push(x);
}

pub fn hook_material(hook: &str, session_summary: &str, scenes: &Vec<HookScene>, last_turn: Option<(&str, &str)>) -> (r: String)
    ensures
        r@ == hook_material_text(
            hook@,
            session_summary@,
            hook_scene_views(scenes@),
            match last_turn { Some((f, t)) => Some((f@, t@)), None => None },
        ),
{
    let ghost sv = hook_scene_views(scenes@);
    let mut parts: Vec<String> = Vec::new();
    if to_chars(session_summary).len() > 0 {
        let mut h = owned("### ");
        push_str(&mut h, hook);
        push_str(&mut h, "/session_summary.md\n");
        push_str(&mut h, session_summary);
        push_view(&mut parts, h);
    }
    let ghost head = views(parts@);
    let mut i: usize = 0;
    assert(sv.take(0) =~= Seq::<(Seq<char>, Option<Seq<char>>, Option<Seq<char>>)>::empty());
    while i < scenes.len()
        invariant
            i <= scenes.len(),
            sv == hook_scene_views(scenes@),
            views(parts@) == head + scenes_hook_parts(hook@, sv.take(i as int)),
        decreases scenes.len() - i,
    {
        let sc = &scenes[i];
        let ghost before = views(parts@);
        let ghost scv = sv[i as int];
        assert(scv == hook_scene_view(scenes@[i as int]));
        match &sc.summary {
            Some(t) => {
                let mut h = owned("### ");
                push_str(&mut h, hook);
                push_str(&mut h, "/");
                push_str(&mut h, sc.name.as_str());
                push_str(&mut h, "/scene_summary.md\n");
                let cut = take_prefix(t.as_str(), 600);
                push_str(&mut h, cut.as_str());
                push_view(&mut parts, h);
            },
            None => {},
        }
        let ghost mid = views(parts@);
        match &sc.last_log {
            Some(log) => match logged_summary_line_of(log.as_str()) {
                Some(l) => {
                    let mut h = owned("### Last turn (");
                    push_str(&mut h, sc.name.as_str());
                    push_str(&mut h, ")\n");
                    push_str(&mut h, l.as_str());
                    push_view(&mut parts, h);
                },
                None => {},
            },
            None => {},
        }
        proof {
            assert(sv.take(i + 1).drop_last() =~= sv.take(i as int));
            assert(sv.take(i + 1).last() == scv);
            assert(views(parts@) =~= before + scene_hook_parts(hook@, scv));
        }
        i += 1;
    }
    proof {
        assert(sv.take(scenes.len() as int) =~= sv);
        let want_head: Seq<Seq<char>> = if session_summary@.len() > 0 {
            seq!["### "@ + hook@ + "/session_summary.md\n"@ + session_summary@]
        } else {
            Seq::empty()
        };
        assert(head =~= want_head);
    }
    let ghost mid_parts = views(parts@);
    if parts.len() == 0 {
        match last_turn {
            Some((f, t)) => {
                let mut h = owned("### ");
                push_str(&mut h, hook);
                push_str(&mut h, "/");
                push_str(&mut h, f);
                push_str(&mut h, " (fallback)\n");
                let cut = take_prefix(t, 1200);
                push_str(&mut h, cut.as_str());
                push_view(&mut parts, h);
                assert(views(parts@) =~= seq![h@]);
            },
            None => {},
        }
    }
    join_strings(&parts, "\n\n")
}

// ─────────────────────────────── session archive ───────────────────────────

/// One scene of a session, as a eucatastrophe reads it: its name and its
/// turn logs (name and text), in order.
pub struct ArchiveScene {
    pub name: String,
    pub logs: Vec<(String, String)>,
}

pub open spec fn archive_scene_view(s: ArchiveScene) -> (Seq<char>, Seq<(Seq<char>, Seq<char>)>) {
    (s.name@, s.logs@.map_values(|l: (String, String)| (l.0@, l.1@)))
}

pub open spec fn archive_scene_views(v: Seq<ArchiveScene>) -> Seq<(Seq<char>, Seq<(Seq<char>, Seq<char>)>)> {
    v.map_values(|s: ArchiveScene| archive_scene_view(s))
}

/// The summary lines of a scene's logs: `- {log}: {summary}` for each log
/// that holds one.
pub open spec fn log_summary_lines(logs: Seq<(Seq<char>, Seq<char>)>) -> Seq<Seq<char>>
    decreases logs.len(),
{
    if logs.len() == 0 {
        Seq::empty()
    } else {
        let p = log_summary_lines(logs.drop_last());
        match logged_summary(logs.last().1) {
            Some(s) => p.push("- "@ + logs.last().0 + ": "@ + s),
            None => p,
        }
    }
}

pub open spec fn scene_archive_parts(scenes: Seq<(Seq<char>, Seq<(Seq<char>, Seq<char>)>)>) -> Seq<Seq<char>>
    decreases scenes.len(),
{
    if scenes.len() == 0 {
        Seq::empty()
    } else {
        let p = scene_archive_parts(scenes.drop_last());
        let ls = log_summary_lines(scenes.last().1);
        if ls.len() > 0 {
            p.push("## "@ + scenes.last().0 + "\n"@ + join(ls, "\n"@))
        } else {
            p
        }
    }
}

/// What a eucatastrophe reads of one session: its summary cut at 600
/// characters, then each scene's logged summary lines; when neither exists,
/// the fallback text (its `TURNS.md`, else its last turn file); `None` when
/// there is nothing at all, and the session is left out.
pub open spec fn session_material_text(
    summary: Option<Seq<char>>,
    scenes: Seq<(Seq<char>, Seq<(Seq<char>, Seq<char>)>)>,
    fallback: Option<Seq<char>>,
) -> Option<Seq<char>> {
    let head: Seq<Seq<char>> = match summary {
        Some(t) => seq!["## Session Summary\n"@ + take_chars(t, 600)],
        None => Seq::empty(),
    };
    let parts = head + scene_archive_parts(scenes);
    if parts.len() > 0 {
        Some(join(parts, "\n\n"@))
    } else {
        fallback
    }
}

fn log_lines(logs: &Vec<(String, String)>) -> (r: Vec<String>)
    ensures
        views(r@) == log_summary_lines(logs@.map_values(|l: (String, String)| (l.0@, l.1@))),
{
    let ghost lv = logs@.map_values(|l: (String, String)| (l.0@, l.1@));
    let mut r: Vec<String> = Vec::new();
    let mut i: usize = 0;
    assert(lv.take(0) =~= Seq::<(Seq<char>, Seq<char>)>::empty());
    while i < logs.len()
        invariant
            i <= logs.len(),
            lv == logs@.map_values(|l: (String, String)| (l.0@, l.1@)),
            views(r@) == log_summary_lines(lv.take(i as int)),
        decreases logs.len() - i,
    {
        let (name, text) = &logs[i];
        proof {
            assert(lv.take(i + 1).drop_last() =~= lv.take(i as int));
            assert(lv.take(i + 1).last() == (name@, text@));
        }
        match crate::index::extract_logged_summary(text.as_str()) {
            Some(sm) => {
                let mut l = owned("- ");
                push_str(&mut l, name.as_str());
                push_str(&mut l, ": ");
                push_str(&mut l, sm.as_str());
                push_view(&mut r, l);
            },
            None => {},
        }
        i += 1;
    }
    proof {
        assert(lv.take(logs.len() as int) =~= lv);
    }
    r
}

pub fn session_material(summary: Option<&str>, scenes: &Vec<ArchiveScene>, fallback: Option<&str>) -> (r: Option<String>)
    ensures
        match r {
            Some(t) => session_material_text(
                match summary { Some(s) => Some(s@), None => None },
                archive_scene_views(scenes@),
                match fallback { Some(s) => Some(s@), None => None },
            ) == Some(t@),
            None => session_material_text(
                match summary { Some(s) => Some(s@), None => None },
                archive_scene_views(scenes@),
                match fallback { Some(s) => Some(s@), None => None },
            ) is None,
        },
{
    let ghost sv = archive_scene_views(scenes@);
    let mut parts: Vec<String> = Vec::new();
    match summary {
        Some(t) => {
            let mut h = owned("## Session Summary\n");
            let cut = take_prefix(t, 600);
            push_str(&mut h, cut.as_str());
            push_view(&mut parts, h);
        },
        None => {},
    }
    let ghost head = views(parts@);
    let mut i: usize = 0;
    assert(sv.take(0) =~= Seq::<(Seq<char>, Seq<(Seq<char>, Seq<char>)>)>::empty());
    while i < scenes.len()
        invariant
            i <= scenes.len(),
            sv == archive_scene_views(scenes@),
            views(parts@) == head + scene_archive_parts(sv.take(i as int)),
        decreases scenes.len() - i,
    {
        let sc = &scenes[i];
        let ls = log_lines(&sc.logs);
        let ghost before = views(parts@);
        proof {
            assert(sv.take(i + 1).drop_last() =~= sv.take(i as int));
            assert(sv.take(i + 1).last() == archive_scene_view(scenes@[i as int]));
        }
        if ls.len() > 0 {
            let mut h = owned("## ");
            push_str(&mut h, sc.name.as_str());
            push_str(&mut h, "\n");
            let body = join_strings(&ls, "\n");
            push_str(&mut h, body.as_str());
            push_view(&mut parts, h);
            assert(views(parts@) =~= head + scene_archive_parts(sv.take(i + 1)));
        } else {
            assert(views(parts@) =~= head + scene_archive_parts(sv.take(i + 1)));
        }
        i += 1;
    }
    proof {
        assert(sv.take(scenes.len() as int) =~= sv);
        let want_head: Seq<Seq<char>> = match summary {
            Some(t) => seq!["## Session Summary\n"@ + take_chars(t@, 600)],
            None => Seq::empty(),
        };
        assert(head =~= want_head);
    }
    if parts.len() > 0 {
        Some(join_strings(&parts, "\n\n"))
    } else {
        match fallback {
            Some(f) => Some(owned(f)),
            None => None,
        }
    }
}

// ─────────────────────────────── scene-opener context ─────────────────────

/// One file of a scene opener's context: `### {label}\n{text cut}\n`.
pub open spec fn context_entry_text(label: Seq<char>, text: Seq<char>, n: nat) -> Seq<char> {
    "### "@ + label + "\n"@ + take_chars(text, n) + "\n"@
}

pub fn context_entry(label: &str, text: &str, n: usize) -> (r: String)
    ensures
        r@ == context_entry_text(label@, text@, n as nat),
{
    let mut r = owned("### ");
    push_str(&mut r, label);
    push_str(&mut r, "\n");
    let cut = take_prefix(text, n);
    push_str(&mut r, cut.as_str());
    push_str(&mut r, "\n");
    r
}

pub open spec fn pair_views(v: Seq<(String, String)>) -> Seq<(Seq<char>, Seq<char>)> {
    v.map_values(|p: (String, String)| (p.0@, p.1@))
}

pub open spec fn world_entries(w: Seq<(Seq<char>, Seq<char>)>) -> Seq<Seq<char>> {
    w.map_values(|p: (Seq<char>, Seq<char>)| context_entry_text("world/"@ + p.0, p.1, 1500))
}

pub open spec fn prior_scene_entries(w: Seq<(Seq<char>, Seq<char>)>) -> Seq<Seq<char>> {
    w.map_values(|p: (Seq<char>, Seq<char>)| context_entry_text("Prior scene: "@ + p.0 + "/scene_summary.md"@, p.1, 1500))
}

pub open spec fn opt_entry(o: Option<Seq<char>>, label: Seq<char>, n: nat) -> Seq<Seq<char>> {
    match o {
        Some(t) => seq![context_entry_text(label, t, n)],
        None => Seq::empty(),
    }
}

/// What a scene opener reads from prior play, in order: the party sheet
/// (2000 characters), the world files read (1500 each), the latest earlier
/// session's summary (2000), this session's earlier scene summaries (1500
/// each) and this session's summary (1500), one entry per line break.
pub open spec fn scene_opener_context_text(
    party: Option<Seq<char>>,
    world: Seq<(Seq<char>, Seq<char>)>,
    previous: Option<(Seq<char>, Seq<char>)>,
    prior_scenes: Seq<(Seq<char>, Seq<char>)>,
    session_dir: Seq<char>,
    session_summary: Option<Seq<char>>,
) -> Seq<char> {
    let prev: Seq<Seq<char>> = match previous {
        Some((sname, t)) => seq![context_entry_text("Previous session: "@ + sname + "/session_summary.md"@, t, 2000)],
        None => Seq::empty(),
    };
    join(
        opt_entry(party, "world/party.md"@, 2000) + world_entries(world) + prev + prior_scene_entries(prior_scenes)
            + opt_entry(session_summary, session_dir + "/session_summary.md"@, 1500),
        "\n"@,
    )
}

fn push_all_entries(parts: &mut Vec<String>, v: &Vec<(String, String)>, world: bool)
    ensures
        views(final(parts)@) == views(old(parts)@) + if world { world_entries(pair_views(v@)) } else { prior_scene_entries(pair_views(v@)) },
{
    let ghost start = views(parts@);
    let ghost want = if world { world_entries(pair_views(v@)) } else { prior_scene_entries(pair_views(v@)) };
    let mut i: usize = 0;
    while i < v.len()
        invariant
            i <= v.len(),
            want == if world { world_entries(pair_views(v@)) } else { prior_scene_entries(pair_views(v@)) },
            want.len() == v.len(),
            views(parts@) == start + want.take(i as int),
        decreases v.len() - i,
    {
        let (name, text) = &v[i];
        let e = if world {
            let mut l = owned("world/");
            push_str(&mut l, name.as_str());
            context_entry(l.as_str(), text.as_str(), 1500)
        } else {
            let mut l = owned("Prior scene: ");
            push_str(&mut l, name.as_str());
            push_str(&mut l, "/scene_summary.md");
            context_entry(l.as_str(), text.as_str(), 1500)
        };
        proof {
            assert(pair_views(v@)[i as int] == (name@, text@));
            assert(e@ == want[i as int]);
        }
        push_view(parts, e);
        assert(want.take(i + 1) =~= want.take(i as int).push(want[i as int]));
        i += 1;
    }
    assert(want.take(v.len() as int) =~= want);
}

pub fn scene_opener_context(
    party: Option<&str>,
    world: &Vec<(String, String)>,
    previous: Option<(&str, &str)>,
    prior_scenes: &Vec<(String, String)>,
    session_dir: &str,
    session_summary: Option<&str>,
) -> (r: String)
    ensures
        r@ == scene_opener_context_text(
            match party { Some(t) => Some(t@), None => None },
            pair_views(world@),
            match previous { Some((s, t)) => Some((s@, t@)), None => None },
            pair_views(prior_scenes@),
            session_dir@,
            match session_summary { Some(t) => Some(t@), None => None },
        ),
{
    let mut parts: Vec<String> = Vec::new();
    let ghost p0 = match party { Some(t) => Some(t@), None => None::<Seq<char>> };
    match party {
        Some(t) => push_view(&mut parts, context_entry("world/party.md", t, 2000)),
        None => {},
    }
    proof {
        reveal_strlit("world/party.md");
        assert(views(parts@) =~= opt_entry(p0, "world/party.md"@, 2000));
    }
    push_all_entries(&mut parts, world, true);
    let ghost before_prev = views(parts@);
    match previous {
        Some((sname, t)) => {
            let mut l = owned("Previous session: ");
            push_str(&mut l, sname);
            push_str(&mut l, "/session_summary.md");
            push_view(&mut parts, context_entry(l.as_str(), t, 2000));
        },
        None => {},
    }
    push_all_entries(&mut parts, prior_scenes, false);
    let ghost before_last = views(parts@);
    let mut label = owned(session_dir);
    push_str(&mut label, "/session_summary.md");
    match session_summary {
        Some(t) => push_view(&mut parts, context_entry(label.as_str(), t, 1500)),
        None => {},
    }
    proof {
        let ss = match session_summary { Some(t) => Some(t@), None => None::<Seq<char>> };
        let pv = match previous { Some((s, t)) => Some((s@, t@)), None => None::<(Seq<char>, Seq<char>)> };
        let prev: Seq<Seq<char>> = match pv {
            Some((sname, t)) => seq![context_entry_text("Previous session: "@ + sname + "/session_summary.md"@, t, 2000)],
            None => Seq::empty(),
        };
        assert(views(parts@) =~= opt_entry(p0, "world/party.md"@, 2000) + world_entries(pair_views(world@)) + prev
            + prior_scene_entries(pair_views(prior_scenes@)) + opt_entry(ss, session_dir@ + "/session_summary.md"@, 1500));
    }
    join_strings(&parts, "\n")
}

/// One file a think-and-run picked: its name, then its first 2000
/// characters and a blank line.
pub open spec fn picked_file_text(name: Seq<char>, text: Seq<char>) -> Seq<char> {
    "### "@ + name + "\n"@ + take_chars(text, 2000) + "\n\n"@
}

pub open spec fn picked_file_entries(files: Seq<(Seq<char>, Seq<char>)>) -> Seq<Seq<char>> {
    files.map_values(|f: (Seq<char>, Seq<char>)| picked_file_text(f.0, f.1))
}

/// The campaign-files part of a think-and-run's tool context: the files it
/// read, in order, under one heading; empty when it read none.
pub open spec fn campaign_files_text(files: Seq<(Seq<char>, Seq<char>)>) -> Seq<char> {
    if files.len() == 0 {
        Seq::empty()
    } else {
        "\n\n=== CAMPAIGN FILES ===\n"@ + join(picked_file_entries(files), ""@)
    }
}

pub fn campaign_files_context(files: &Vec<(String, String)>) -> (r: String)
    ensures
        r@ == campaign_files_text(pair_views(files@)),
{
    if files.len() == 0 {
        proof {
            reveal_strlit("");
        }
        return owned("");
    }
    let ghost want = picked_file_entries(pair_views(files@));
    let mut parts: Vec<String> = Vec::new();
    let mut i: usize = 0;
    while i < files.len()
        invariant
            i <= files.len(),
            want == picked_file_entries(pair_views(files@)),
            views(parts@) == want.take(i as int),
        decreases files.len() - i,
    {
        let (name, text) = &files[i];
        let mut e = owned("### ");
        push_str(&mut e, name.as_str());
        push_str(&mut e, "\n");
        let t = take_prefix(text.as_str(), 2000);
        push_str(&mut e, t.as_str());
        push_str(&mut e, "\n\n");
        push_view(&mut parts, e);
        assert(want.take(i + 1) =~= want.take(i as int).push(want[i as int]));
        i += 1;
    }
    assert(want.take(files.len() as int) =~= want);
    let body = join_strings(&parts, "");
    let mut r = owned("\n\n=== CAMPAIGN FILES ===\n");
    push_str(&mut r, body.as_str());
    r
}

} // verus!
