//! The dice step of a scene turn: `ROLL|Character|check_type|tier|reason`
//! lines from the rules assessor are resolved against the rules database
//! (difficulty, modifier, consequences), rolled, and their deterministic
//! effects applied to the party state.
use vstd::prelude::*;

use crate::dice::{roll_dice, rolls_in_range};
use crate::party::{apply_effect_list, state_or_fresh, CharStateView, PartyState};
use crate::rules::{CheckTier, RulesDb};
use crate::text::{
    chars_eq_str, decimal, deep, int_text, lemma_views_push, lines, lines_chars, owned, push_int,
    push_str, signed_suffix, splitn, splitn_chars, starts_with, str_eq, string_of,
    strip_prefix_chars, to_chars, trim, trim_chars, views,
};

verus! {

/// What a `ROLL|…` line asks for, resolved against the rules.
pub struct RollPlan {
    pub char_name: Seq<char>,
    pub check_type: Seq<char>,
    pub tier: Seq<char>,
    pub reason: Seq<char>,
    pub dc: i32,
    pub modifier: i32,
    pub label: Seq<char>,
    pub on_fail: Seq<char>,
    pub on_success: Seq<char>,
}

pub open spec fn is_save(check_type: Seq<char>) -> bool {
    check_type == "cosmic_dread"@ || check_type == "fear"@
}

/// The ability whose modifier applies: `INT_SAVE` for cosmic dread,
/// `WIS_SAVE` for fear, else the check type itself.
pub open spec fn ability_for(check_type: Seq<char>) -> Seq<char> {
    if check_type == "cosmic_dread"@ {
        "INT_SAVE"@
    } else if check_type == "fear"@ {
        "WIS_SAVE"@
    } else {
        check_type
    }
}

pub open spec fn ability_of_check(db: RulesDb, check_type: Seq<char>) -> Seq<char> {
    match db.spec_check(check_type) {
        Some(ct) => ct.ability@,
        None => "Unknown"@,
    }
}

/// The plan of one line of rules-assessor output, if it is a roll request.
pub open spec fn roll_plan(line: Seq<char>, db: Option<RulesDb>) -> Option<RollPlan> {
    let l = trim(line);
    if !starts_with(l, "ROLL|"@) {
        None
    } else {
        let parts = splitn(l, '|', 5);
        if parts.len() < 4 {
            None
        } else {
            let char_name = trim(parts[1]);
            let check_type = trim(parts[2]);
            let tier = trim(parts[3]);
            let reason = if parts.len() > 4 { trim(parts[4]) } else { Seq::empty() };
            Some(match db {
                Some(db) => RollPlan {
                    char_name, check_type, tier, reason,
                    dc: db.spec_dc(check_type, tier),
                    modifier: db.spec_modifier(char_name, ability_for(check_type)),
                    label: if is_save(check_type) {
                        ability_of_check(db, check_type) + " ("@ + check_type + ")"@
                    } else {
                        check_type
                    },
                    on_fail: match db.spec_tier(check_type, tier) {
                        Some(t) => t.on_fail@,
                        None => "Failure consequence."@,
                    },
                    on_success: match db.spec_tier(check_type, tier) {
                        Some(t) => t.on_success@,
                        None => "Success."@,
                    },
                },
                None => RollPlan {
                    char_name, check_type, tier, reason,
                    dc: 12,
                    modifier: 0,
                    label: check_type,
                    on_fail: "Failure consequence."@,
                    on_success: "Success."@,
                },
            })
        }
    }
}

/// The ability a roll's modifier comes from: a `cosmic_dread` line uses
/// the character's `INT_SAVE`, a `fear` line its `WIS_SAVE`, and any other
/// check type the ability of that name; the DC is the tier's in the rules.
pub proof fn law_roll_uses_the_check_ability(line: Seq<char>, db: RulesDb, p: RollPlan)
    requires
        roll_plan(line, Some(db)) == Some(p),
    ensures
        p.check_type == "cosmic_dread"@ ==> p.modifier == db.spec_modifier(p.char_name, "INT_SAVE"@),
        p.check_type == "fear"@ ==> p.modifier == db.spec_modifier(p.char_name, "WIS_SAVE"@),
        p.check_type != "cosmic_dread"@ && p.check_type != "fear"@
            ==> p.modifier == db.spec_modifier(p.char_name, p.check_type),
        p.dc == db.spec_dc(p.check_type, p.tier),
{
    reveal_strlit("cosmic_dread");
    reveal_strlit("fear");
}

/// The plans that are rolled, in order: roll requests whose notation
/// parses (all but those with the modifier `i32::MIN`, whose `1d20-…`
/// notation is out of range).
pub open spec fn rolled_plans(ls: Seq<Seq<char>>, db: Option<RulesDb>) -> Seq<RollPlan>
    decreases ls.len(),
{
    if ls.len() == 0 {
        Seq::empty()
    } else {
        let p = rolled_plans(ls.drop_last(), db);
        match roll_plan(ls.last(), db) {
            Some(plan) => if plan.modifier == i32::MIN { p } else { p.push(plan) },
            None => p,
        }
    }
}

/// `1d20+N`, or `1d20-N` for a negative modifier.
pub open spec fn notation_text(m: i32) -> Seq<char> {
    if m >= 0 {
        "1d20+"@ + decimal(m as nat)
    } else {
        "1d20"@ + int_text(m as int)
    }
}

pub open spec fn outcome_text(success: bool) -> Seq<char> {
    if success { "SUCCESS"@ } else { "FAILURE"@ }
}

/// The meta-log entry of a roll.
pub open spec fn result_text(p: RollPlan, die: u32, total: i32) -> Seq<char> {
    let success = total >= p.dc;
    p.char_name + " "@ + p.label + ": "@ + notation_text(p.modifier) + " → ["@ + decimal(die as nat)
        + "]"@ + signed_suffix(p.modifier as int) + " = **"@ + int_text(total as int) + "** vs DC "@
        + int_text(p.dc as int) + " → **"@ + outcome_text(success) + "**\n  ↳ "@
        + (if success { p.on_success } else { p.on_fail }) + "\n  ↳ "@ + p.reason
}

/// The entry handed to the prose writer: outcome and consequence, no numbers.
pub open spec fn prose_text(p: RollPlan, success: bool) -> Seq<char> {
    p.char_name + " "@ + p.label + ": "@ + outcome_text(success) + "\n  ↳ "@
        + (if success { p.on_success } else { p.on_fail }) + "\n  ↳ "@ + p.reason
}

/// Every modifier in the rules leaves room for a d20 in an `i32` total.
pub open spec fn modifiers_bounded(db: RulesDb) -> bool {
    forall|i: int, k: int|
        0 <= i < db.characters@.len() && 0 <= k < db.characters@[i].abilities@.len()
            ==> #[trigger] db.characters@[i].abilities@[k].modifier <= i32::MAX - 20
}

/// The effects a roll's outcome applies, when the rules define its tier.
pub open spec fn effects_of(db: Option<RulesDb>, p: RollPlan, success: bool) -> Option<Seq<Seq<char>>> {
    match db {
        Some(db) => match db.spec_tier(p.check_type, p.tier) {
            Some(t) => Some(if success { views(t.succ_effects@) } else { views(t.fail_effects@) }),
            None => None,
        },
        None => None,
    }
}

/// The party after the effects of the rolls, applied in order.
pub open spec fn party_after(
    m: Map<Seq<char>, CharStateView>,
    db: Option<RulesDb>,
    ps: Seq<RollPlan>,
    succ: Seq<bool>,
) -> Map<Seq<char>, CharStateView>
    decreases ps.len(),
{
    if ps.len() == 0 || succ.len() < ps.len() {
        m
    } else {
        let prev = party_after(m, db, ps.drop_last(), succ.take(ps.len() - 1));
        let p = ps.last();
        match effects_of(db, p, succ[ps.len() - 1]) {
            Some(es) => prev.insert(p.char_name, apply_effect_list(state_or_fresh(prev, p.char_name), es)),
            None => prev,
        }
    }
}

/// What the dice step produced, one entry per rolled plan.
pub struct DiceStep {
    /// The d20 rolled for each plan.
    pub dice: Vec<u32>,
    /// Die plus modifier.
    pub totals: Vec<i32>,
    /// Notations, for the turn index.
    pub dice_lines: Vec<String>,
    /// Full entries, for the meta log.
    pub dice_results: Vec<String>,
    /// Entries without numbers, for the prose writer.
    pub dice_prose_results: Vec<String>,
    /// `SUCCESS` or `FAILURE` per roll.
    pub roll_outcomes: Vec<String>,
}

pub open spec fn successes(step_totals: Seq<i32>, ps: Seq<RollPlan>) -> Seq<bool> {
    Seq::new(step_totals.len(), |i: int| step_totals[i] >= ps[i].dc)
}

impl DiceStep {
    /// Entry `i` records a roll of plan `p`.
    pub open spec fn entry_ok(&self, i: int, p: RollPlan) -> bool {
        let success = self.totals@[i] >= p.dc;
        &&& 1 <= self.dice@[i] <= 20
        &&& self.totals@[i] as int == self.dice@[i] as int + p.modifier as int
        &&& self.dice_lines@[i]@ == notation_text(p.modifier)
        &&& self.dice_results@[i]@ == result_text(p, self.dice@[i], self.totals@[i])
        &&& self.dice_prose_results@[i]@ == prose_text(p, success)
        &&& self.roll_outcomes@[i]@ == outcome_text(success)
    }

    /// The step's lists describe the rolls of `ps`, in order.
    pub open spec fn describes(&self, ps: Seq<RollPlan>) -> bool {
        &&& self.dice.len() == ps.len()
        &&& self.totals.len() == ps.len()
        &&& self.dice_lines.len() == ps.len()
        &&& self.dice_results.len() == ps.len()
        &&& self.dice_prose_results.len() == ps.len()
        &&& self.roll_outcomes.len() == ps.len()
        &&& forall|i: int| 0 <= i < ps.len() ==> #[trigger] self.entry_ok(i, ps[i])
    }
}

/// A roll plan held in executable form.
pub struct PlannedRoll {
    pub char_name: String,
    pub check_type: String,
    pub tier: String,
    pub reason: String,
    pub dc: i32,
    pub modifier: i32,
    pub label: String,
    pub on_fail: String,
    pub on_success: String,
}

impl PlannedRoll {
    pub open spec fn plan(&self) -> RollPlan {
        RollPlan {
            char_name: self.char_name@,
            check_type: self.check_type@,
            tier: self.tier@,
            reason: self.reason@,
            dc: self.dc,
            modifier: self.modifier,
            label: self.label@,
            on_fail: self.on_fail@,
            on_success: self.on_success@,
        }
    }
}

fn is_save_text(check_type: &str) -> (r: bool)
    ensures
        r == is_save(check_type@),
{
    str_eq(check_type, "cosmic_dread") || str_eq(check_type, "fear")
}

fn ability_text(check_type: &str) -> (r: String)
    ensures
        r@ == ability_for(check_type@),
{
    if str_eq(check_type, "cosmic_dread") {
        owned("INT_SAVE")
    } else if str_eq(check_type, "fear") {
        owned("WIS_SAVE")
    } else {
        owned(check_type)
    }
}

/// Resolves one line of rules-assessor output.
pub fn plan_roll(line: &str, db: Option<&RulesDb>) -> (r: Option<PlannedRoll>)
    ensures
        match r {
            Some(p) => roll_plan(line@, match db { Some(d) => Some(*d), None => None }) == Some(p.plan()),
            None => roll_plan(line@, match db { Some(d) => Some(*d), None => None }) is None,
        },
{
    let v = to_chars(line);
    let l = trim_chars(&v);
    if strip_prefix_chars(&l, "ROLL|").is_none() {
        return None;
    }
    let parts = splitn_chars(&l, '|', 5);
    if parts.len() < 4 {
        return None;
    }
    let char_name = string_of(&trim_chars(&parts[1]));
    let check_type = string_of(&trim_chars(&parts[2]));
    let tier = string_of(&trim_chars(&parts[3]));
    let reason = if parts.len() > 4 { string_of(&trim_chars(&parts[4])) } else { String::new() };
    match db {
        Some(db) => {
            let dc = db.dc(check_type.as_str(), tier.as_str());
            let ability = ability_text(check_type.as_str());
            let modifier = db.modifier(char_name.as_str(), ability.as_str());
            let (f, s) = db.consequences(check_type.as_str(), tier.as_str());
            let on_fail = owned(f);
            let on_success = owned(s);
            let label = if is_save_text(check_type.as_str()) {
                let mut t = owned(db.ability_for_check(check_type.as_str()));
                push_str(&mut t, " (");
                push_str(&mut t, check_type.as_str());
                push_str(&mut t, ")");
                t
            } else {
                owned(check_type.as_str())
            };
            let p = PlannedRoll { char_name, check_type, tier, reason, dc, modifier, label, on_fail, on_success };
            Some(p)
        },
        None => {
            let label = owned(check_type.as_str());
            let p = PlannedRoll {
                char_name, check_type, tier, reason, dc: 12, modifier: 0, label,
                on_fail: owned("Failure consequence."), on_success: owned("Success."),
            };
            Some(p)
        },
    }
}

fn notation_string(m: i32) -> (r: String)
    ensures
        r@ == notation_text(m),
{
    if m >= 0 {
        let mut r = owned("1d20+");
        push_int(&mut r, m as i64);
        r
    } else {
        let mut r = owned("1d20");
        push_int(&mut r, m as i64);
        r
    }
}

fn push_signed(s: &mut String, n: i32)
    ensures
        final(s)@ == old(s)@ + signed_suffix(n as int),
{
    if n > 0 {
        push_str(s, "+");
        proof { reveal_strlit("+"); }
        push_int(s, n as i64);
        assert(final(s)@ =~= old(s)@ + signed_suffix(n as int));
    } else if n < 0 {
        push_int(s, n as i64);
    } else {
        assert(s@ =~= s@ + signed_suffix(n as int));
    }
}

fn result_string(p: &PlannedRoll, die: u32, total: i32) -> (r: String)
    ensures
        r@ == result_text(p.plan(), die, total),
{
    let success = total >= p.dc;
    let mut r = owned(p.char_name.as_str());
    push_str(&mut r, " ");
    push_str(&mut r, p.label.as_str());
    push_str(&mut r, ": ");
    let n = notation_string(p.modifier);
    push_str(&mut r, n.as_str());
    push_str(&mut r, " → [");
    push_int(&mut r, die as i64);
    push_str(&mut r, "]");
    push_signed(&mut r, p.modifier);
    push_str(&mut r, " = **");
    push_int(&mut r, total as i64);
    push_str(&mut r, "** vs DC ");
    push_int(&mut r, p.dc as i64);
    push_str(&mut r, " → **");
    push_str(&mut r, if success { "SUCCESS" } else { "FAILURE" });
    push_str(&mut r, "**\n  ↳ ");
    push_str(&mut r, if success { p.on_success.as_str() } else { p.on_fail.as_str() });
    push_str(&mut r, "\n  ↳ ");
    push_str(&mut r, p.reason.as_str());
    assert(int_text(die as int) == decimal(die as nat));
    assert(r@ =~= result_text(p.plan(), die, total));
    r
}

fn prose_string(p: &PlannedRoll, success: bool) -> (r: String)
    ensures
        r@ == prose_text(p.plan(), success),
{
    let mut r = owned(p.char_name.as_str());
    push_str(&mut r, " ");
    push_str(&mut r, p.label.as_str());
    push_str(&mut r, ": ");
    push_str(&mut r, if success { "SUCCESS" } else { "FAILURE" });
    push_str(&mut r, "\n  ↳ ");
    push_str(&mut r, if success { p.on_success.as_str() } else { p.on_fail.as_str() });
    push_str(&mut r, "\n  ↳ ");
    push_str(&mut r, p.reason.as_str());
    assert(r@ =~= prose_text(p.plan(), success));
    r
}

proof fn lemma_modifier_bounded(db: RulesDb, c: Seq<char>, a: Seq<char>)
    requires
        modifiers_bounded(db),
    ensures
        db.spec_modifier(c, a) <= i32::MAX - 20,
{
    crate::text::lemma_first_index(db.characters@, crate::rules::character_named(c));
    match db.spec_character(c) {
        Some(ch) => {
            let i = crate::text::first_index(db.characters@, crate::rules::character_named(c))->0;
            crate::text::lemma_first_index(ch.abilities@, crate::rules::ability_named(a));
            match first_index_ab(ch, a) {
                Some(k) => {
                    assert(db.characters@[i].abilities@[k].modifier <= i32::MAX - 20);
                },
                None => {},
            }
        },
        None => {},
    }
}

spec fn first_index_ab(ch: crate::rules::CharacterRules, a: Seq<char>) -> Option<int> {
    crate::text::first_index(ch.abilities@, crate::rules::ability_named(a))
}

fn apply_roll_effects(p: &PlannedRoll, db: Option<&RulesDb>, success: bool, party: &mut PartyState)
    requires
        old(party).wf(),
    ensures
        final(party).wf(),
        final(party).view() == match effects_of(match db { Some(d) => Some(*d), None => None::<RulesDb> }, p.plan(), success) {
            Some(es) => old(party).view().insert(p.char_name@, apply_effect_list(state_or_fresh(old(party).view(), p.char_name@), es)),
            None => old(party).view(),
        },
{
    match db {
        Some(d) => match d.tier(p.check_type.as_str(), p.tier.as_str()) {
            Some(t) => {
                let effects: &Vec<String> = if success { &t.succ_effects } else { &t.fail_effects };
                party.apply_effects_for(p.char_name.as_str(), effects.as_slice());
            },
            None => {},
        },
        None => {},
    }
}

/// Rolls one plan and records it.
fn roll_planned(p: &PlannedRoll, step: &mut DiceStep, Ghost(ps0): Ghost<Seq<RollPlan>>) -> (success: bool)
    requires
        old(step).describes(ps0),
        p.modifier <= i32::MAX - 20,
    ensures
        final(step).describes(ps0.push(p.plan())),
        final(step).totals@.drop_last() == old(step).totals@,
        success == (final(step).totals@.last() >= p.dc),
{
    let (dice, _sum) = roll_dice(1, 20);
    let die = dice[0];
    assert(rolls_in_range(dice@, 20));
    assert(1 <= dice@[0] <= 20);
    let total: i32 = die as i32 + p.modifier;
    let success = total >= p.dc;
    let nl = notation_string(p.modifier);
    let rl = result_string(p, die, total);
    let pl = prose_string(p, success);
    let ol = owned(if success { "SUCCESS" } else { "FAILURE" });
    let ghost t0 = step.totals@;
    let ghost old_step = *step;
    step.dice.push(die);
    step.totals.push(total);
    step.dice_lines.push(nl);
    step.dice_results.push(rl);
    step.dice_prose_results.push(pl);
    step.roll_outcomes.push(ol);
    proof {
        let ps1 = ps0.push(p.plan());
        assert(step.totals@.drop_last() =~= t0);
        assert forall|k: int| 0 <= k < ps1.len() implies #[trigger] step.entry_ok(k, ps1[k])
        by {
            if k < ps0.len() {
                assert(ps1[k] == ps0[k]);
                assert(old_step.entry_ok(k, ps0[k]));
                assert(step.dice@[k] == old_step.dice@[k]);
                assert(step.totals@[k] == old_step.totals@[k]);
                assert(step.dice_lines@[k] == old_step.dice_lines@[k]);
                assert(step.dice_results@[k] == old_step.dice_results@[k]);
                assert(step.dice_prose_results@[k] == old_step.dice_prose_results@[k]);
                assert(step.roll_outcomes@[k] == old_step.roll_outcomes@[k]);
            } else {
                assert(ps1[k] == p.plan());
            }
        }
        assert(step.dice.len() == ps1.len());
        assert(step.totals.len() == ps1.len());
        assert(step.dice_lines.len() == ps1.len());
        assert(step.dice_results.len() == ps1.len());
        assert(step.dice_prose_results.len() == ps1.len());
        assert(step.roll_outcomes.len() == ps1.len());
        assert(step.describes(ps1));
    }
    success
}

proof fn lemma_party_after_push(
    m0: Map<Seq<char>, CharStateView>,
    sdb: Option<RulesDb>,
    ps0: Seq<RollPlan>,
    t0: Seq<i32>,
    p: RollPlan,
    t1: Seq<i32>,
)
    requires
        t0.len() == ps0.len(),
        t1.drop_last() == t0,
        t1.len() == ps0.len() + 1,
    ensures
        ({
            let prev = party_after(m0, sdb, ps0, successes(t0, ps0));
            let ps1 = ps0.push(p);
            party_after(m0, sdb, ps1, successes(t1, ps1)) == match effects_of(sdb, p, t1.last() >= p.dc) {
                Some(es) => prev.insert(p.char_name, apply_effect_list(state_or_fresh(prev, p.char_name), es)),
                None => prev,
            }
        }),
{
    let ps1 = ps0.push(p);
    let s1 = successes(t1, ps1);
    assert(ps1.drop_last() =~= ps0);
    assert(s1.take(ps0.len() as int) =~= successes(t0, ps0)) by {
        assert forall|k: int| 0 <= k < ps0.len() implies s1[k] == successes(t0, ps0)[k] by {
            assert(t1[k] == t0[k]);
            assert(ps1[k] == ps0[k]);
        }
    }
    assert(s1[ps0.len() as int] == (t1.last() >= p.dc));
}

/// Resolves and rolls every `ROLL|…` line of the rules assessor's output.
///
/// Each roll request is resolved against the rules (or the defaults
/// DC 12, modifier 0 without them), rolled as one d20 plus the modifier and
/// judged against the DC; with rules, the tier's success or failure effects
/// are applied to the rolling character's state at once.
pub fn run_dice_step(rules_output: &str, db: Option<&RulesDb>, party: &mut PartyState) -> (r: DiceStep)
    requires
        old(party).wf(),
        db matches Some(d) ==> modifiers_bounded(*d),
    ensures
        ({
            let sdb = match db { Some(d) => Some(*d), None => None::<RulesDb> };
            let ps = rolled_plans(lines(rules_output@), sdb);
            &&& r.describes(ps)
            &&& final(party).wf()
            &&& final(party).view() == party_after(old(party).view(), sdb, ps, successes(r.totals@, ps))
        }),
{
    let ghost sdb = match db { Some(d) => Some(*d), None => None::<RulesDb> };
    let text = to_chars(rules_output);
    let ls = lines_chars(&text);
    let ghost all = deep(ls@);
    let ghost m0 = party.view();
    let mut step = DiceStep {
        dice: Vec::new(),
        totals: Vec::new(),
        dice_lines: Vec::new(),
        dice_results: Vec::new(),
        dice_prose_results: Vec::new(),
        roll_outcomes: Vec::new(),
    };
    let mut i: usize = 0;
    assert(all.take(0) =~= Seq::<Seq<char>>::empty());
    while i < ls.len()
        invariant
            i <= ls.len(),
            all == deep(ls@),
            all == lines(rules_output@),
            sdb == match db { Some(d) => Some(*d), None => None::<RulesDb> },
            db matches Some(d) ==> modifiers_bounded(*d),
            party.wf(),
            step.describes(rolled_plans(all.take(i as int), sdb)),
            party.view() == party_after(m0, sdb, rolled_plans(all.take(i as int), sdb),
                successes(step.totals@, rolled_plans(all.take(i as int), sdb))),
        decreases ls.len() - i,
    {
        let ghost ps0 = rolled_plans(all.take(i as int), sdb);
        proof {
            assert(all.take(i + 1).drop_last() =~= all.take(i as int));
            assert(all.take(i + 1).last() == ls@[i as int]@);
        }
        let line = string_of(&ls[i]);
        match plan_roll(line.as_str(), db) {
            None => {
                assert(rolled_plans(all.take(i + 1), sdb) == ps0);
            },
            Some(p) => {
                if p.modifier != i32::MIN {
                    proof {
                        if let Some(d) = db {
                            lemma_modifier_bounded(*d, p.char_name@, ability_for(p.check_type@));
                        }
                        assert(rolled_plans(all.take(i + 1), sdb) == ps0.push(p.plan()));
                    }
                    let ghost t0 = step.totals@;
                    let ghost before = party.view();
                    let success = roll_planned(&p, &mut step, Ghost(ps0));
                    apply_roll_effects(&p, db, success, party);
                    proof {
                        lemma_party_after_push(m0, sdb, ps0, t0, p.plan(), step.totals@);
                    }
                } else {
                    assert(rolled_plans(all.take(i + 1), sdb) == ps0);
                }
            },
        }
        i += 1;
    }
    assert(all.take(ls.len() as int) =~= all);
    step
}

} // verus!
