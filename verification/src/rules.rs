//! The structured rules database of a campaign (`rules/rules.toml`):
//! check types with tiered difficulty classes, and each character's
//! ability modifiers and special rules.
use vstd::prelude::*;

use crate::text::{
    eq_ignore_ascii_case, first_index, int_text, join, lemma_first_index_all,
    lemma_first_index_step, push_int, push_str, str_eq, str_eq_ignore_ascii_case, views,
    join_strings, lemma_map_take_step, lemma_views_push,
};

verus! {

pub struct RulesDb {
    pub check_types: Vec<CheckType>,
    pub characters: Vec<CharacterRules>,
}

pub struct CheckType {
    pub id: String,
    pub ability: String,
    pub description: String,
    pub prose: String,
    pub tiers: Vec<CheckTier>,
}

pub struct CheckTier {
    pub id: String,
    pub dc: i32,
    pub triggers: Vec<String>,
    pub on_fail: String,
    pub on_success: String,
    pub fail_effects: Vec<String>,
    pub succ_effects: Vec<String>,
}

pub struct CharacterRules {
    pub name: String,
    pub abilities: Vec<AbilityEntry>,
    pub special_rules: Vec<SpecialRule>,
}

pub struct AbilityEntry {
    pub name: String,
    pub modifier: i32,
}

pub struct SpecialRule {
    pub id: String,
    pub description: String,
}

// ─────────────────────────────── lookups (spec) ────────────────────────────

pub open spec fn check_with_id(id: Seq<char>) -> spec_fn(CheckType) -> bool {
    |ct: CheckType| ct.id@ == id
}

pub open spec fn tier_with_id(id: Seq<char>) -> spec_fn(CheckTier) -> bool {
    |t: CheckTier| t.id@ == id
}

pub open spec fn character_named(name: Seq<char>) -> spec_fn(CharacterRules) -> bool {
    |c: CharacterRules| eq_ignore_ascii_case(c.name@, name)
}

pub open spec fn ability_named(name: Seq<char>) -> spec_fn(AbilityEntry) -> bool {
    |a: AbilityEntry| eq_ignore_ascii_case(a.name@, name)
}

impl RulesDb {
    /// The first check type with this id.
    pub open spec fn spec_check(self, check_type: Seq<char>) -> Option<CheckType> {
        match first_index(self.check_types@, check_with_id(check_type)) {
            Some(i) => Some(self.check_types@[i]),
            None => None,
        }
    }

    /// The first tier with this id inside the first check type with its id.
    pub open spec fn spec_tier(self, check_type: Seq<char>, tier: Seq<char>) -> Option<CheckTier> {
        match self.spec_check(check_type) {
            Some(ct) => match first_index(ct.tiers@, tier_with_id(tier)) {
                Some(j) => Some(ct.tiers@[j]),
                None => None,
            },
            None => None,
        }
    }

    /// The first character whose name matches, ignoring ASCII case.
    pub open spec fn spec_character(self, character: Seq<char>) -> Option<CharacterRules> {
        match first_index(self.characters@, character_named(character)) {
            Some(i) => Some(self.characters@[i]),
            None => None,
        }
    }

    pub open spec fn spec_modifier(self, character: Seq<char>, ability: Seq<char>) -> i32 {
        match self.spec_character(character) {
            Some(c) => match first_index(c.abilities@, ability_named(ability)) {
                Some(k) => c.abilities@[k].modifier,
                None => 0,
            },
            None => 0,
        }
    }

    pub open spec fn spec_dc(self, check_type: Seq<char>, tier: Seq<char>) -> i32 {
        match self.spec_tier(check_type, tier) {
            Some(t) => t.dc,
            None => 12,
        }
    }

    /// `- {description}` for each special rule of the character, one per line.
    pub open spec fn spec_special_rules_text(self, character: Seq<char>) -> Seq<char> {
        match self.spec_character(character) {
            Some(c) => join(c.special_rules@.map_values(|r: SpecialRule| "- "@ + r.description@), "\n"@),
            None => Seq::empty(),
        }
    }
}

// ─────────────────────────────── lookup laws ───────────────────────────────

/// The modifier of ability `a` for character `c` is read from the first
/// character whose name equals `c` ignoring ASCII case, in that character's
/// own list of abilities: its first ability named `a` (again ignoring ASCII
/// case) gives the modifier.
pub proof fn law_modifier_of_matched_character(db: RulesDb, c: Seq<char>, a: Seq<char>, i: int, k: int)
    requires
        0 <= i < db.characters@.len(),
        eq_ignore_ascii_case(db.characters@[i].name@, c),
        forall|j: int| 0 <= j < i ==> !eq_ignore_ascii_case(#[trigger] db.characters@[j].name@, c),
        0 <= k < db.characters@[i].abilities@.len(),
        eq_ignore_ascii_case(db.characters@[i].abilities@[k].name@, a),
        forall|l: int| 0 <= l < k ==> !eq_ignore_ascii_case(#[trigger] db.characters@[i].abilities@[l].name@, a),
    ensures
        db.spec_modifier(c, a) == db.characters@[i].abilities@[k].modifier,
{
    let chars = db.characters@;
    let p = character_named(c);
    crate::text::lemma_first_index(chars, p);
    match first_index(chars, p) {
        Some(i2) => {
            if i2 < i {
                assert(p(chars[i2]));
                assert(!eq_ignore_ascii_case(chars[i2].name@, c));
            }
            if i2 > i {
                assert(!p(chars[i]));
            }
            assert(i2 == i);
        },
        None => {
            assert(!p(chars[i]));
        },
    }
    let abs = chars[i].abilities@;
    let q = ability_named(a);
    crate::text::lemma_first_index(abs, q);
    match first_index(abs, q) {
        Some(k2) => {
            if k2 < k {
                assert(q(abs[k2]));
                assert(!eq_ignore_ascii_case(abs[k2].name@, a));
            }
            if k2 > k {
                assert(!q(abs[k]));
            }
            assert(k2 == k);
        },
        None => {
            assert(!q(abs[k]));
        },
    }
}

/// A modifier is 0 when no character is named `c`, or when the first one
/// named `c` has no ability named `a`.
pub proof fn law_modifier_defaults_to_zero(db: RulesDb, c: Seq<char>, a: Seq<char>)
    ensures
        (forall|j: int| 0 <= j < db.characters@.len() ==> !eq_ignore_ascii_case(#[trigger] db.characters@[j].name@, c))
            ==> db.spec_modifier(c, a) == 0,
        forall|i: int|
            0 <= i < db.characters@.len() && eq_ignore_ascii_case(#[trigger] db.characters@[i].name@, c)
                && (forall|j: int| 0 <= j < i ==> !eq_ignore_ascii_case(#[trigger] db.characters@[j].name@, c))
                && (forall|l: int| 0 <= l < db.characters@[i].abilities@.len()
                    ==> !eq_ignore_ascii_case(#[trigger] db.characters@[i].abilities@[l].name@, a))
                ==> db.spec_modifier(c, a) == 0,
{
    let chars = db.characters@;
    let p = character_named(c);
    crate::text::lemma_first_index(chars, p);
    if let Some(i2) = first_index(chars, p) {
        assert(p(chars[i2]));
        crate::text::lemma_first_index(chars[i2].abilities@, ability_named(a));
        if let Some(k) = first_index(chars[i2].abilities@, ability_named(a)) {
            assert(ability_named(a)(chars[i2].abilities@[k]));
        }
    }
    assert forall|i: int|
        0 <= i < db.characters@.len() && eq_ignore_ascii_case(#[trigger] db.characters@[i].name@, c)
            && (forall|j: int| 0 <= j < i ==> !eq_ignore_ascii_case(#[trigger] db.characters@[j].name@, c))
            && (forall|l: int| 0 <= l < db.characters@[i].abilities@.len()
                ==> !eq_ignore_ascii_case(#[trigger] db.characters@[i].abilities@[l].name@, a))
        implies db.spec_modifier(c, a) == 0 by {
        match first_index(chars, p) {
            Some(i2) => {
                if i2 < i {
                    assert(!eq_ignore_ascii_case(chars[i2].name@, c));
                }
                if i2 > i {
                    assert(!p(chars[i]));
                }
                assert(i2 == i);
                let abs = chars[i].abilities@;
                crate::text::lemma_first_index(abs, ability_named(a));
                if let Some(k) = first_index(abs, ability_named(a)) {
                    assert(!eq_ignore_ascii_case(abs[k].name@, a));
                }
            },
            None => {
                assert(!p(chars[i]));
            },
        }
    }
}

/// A tier is looked up inside the first check type whose id is `ct`: its
/// first tier with id `t` is the tier, and its difficulty class is the DC.
pub proof fn law_tier_of_matched_check_type(db: RulesDb, ct: Seq<char>, t: Seq<char>, i: int, j: int)
    requires
        0 <= i < db.check_types@.len(),
        db.check_types@[i].id@ == ct,
        forall|h: int| 0 <= h < i ==> (#[trigger] db.check_types@[h]).id@ != ct,
        0 <= j < db.check_types@[i].tiers@.len(),
        db.check_types@[i].tiers@[j].id@ == t,
        forall|l: int| 0 <= l < j ==> (#[trigger] db.check_types@[i].tiers@[l]).id@ != t,
    ensures
        db.spec_tier(ct, t) == Some(db.check_types@[i].tiers@[j]),
        db.spec_dc(ct, t) == db.check_types@[i].tiers@[j].dc,
{
    let cts = db.check_types@;
    let p = check_with_id(ct);
    crate::text::lemma_first_index(cts, p);
    match first_index(cts, p) {
        Some(i2) => {
            if i2 < i {
                assert(p(cts[i2]));
                assert(cts[i2].id@ != ct);
            }
            if i2 > i {
                assert(!p(cts[i]));
            }
            assert(i2 == i);
        },
        None => {
            assert(!p(cts[i]));
        },
    }
    let ts = cts[i].tiers@;
    let q = tier_with_id(t);
    crate::text::lemma_first_index(ts, q);
    match first_index(ts, q) {
        Some(j2) => {
            if j2 < j {
                assert(q(ts[j2]));
                assert(ts[j2].id@ != t);
            }
            if j2 > j {
                assert(!q(ts[j]));
            }
            assert(j2 == j);
        },
        None => {
            assert(!q(ts[j]));
        },
    }
}

/// No tier, and the default DC 12, when no check type has id `ct`, or when
/// the first one with that id has no tier `t`.
pub proof fn law_tier_missing(db: RulesDb, ct: Seq<char>, t: Seq<char>)
    ensures
        (forall|h: int| 0 <= h < db.check_types@.len() ==> (#[trigger] db.check_types@[h]).id@ != ct)
            ==> db.spec_tier(ct, t) is None && db.spec_dc(ct, t) == 12,
        forall|i: int|
            0 <= i < db.check_types@.len() && (#[trigger] db.check_types@[i]).id@ == ct
                && (forall|h: int| 0 <= h < i ==> (#[trigger] db.check_types@[h]).id@ != ct)
                && (forall|l: int| 0 <= l < db.check_types@[i].tiers@.len() ==> (#[trigger] db.check_types@[i].tiers@[l]).id@ != t)
                ==> db.spec_tier(ct, t) is None && db.spec_dc(ct, t) == 12,
{
    let cts = db.check_types@;
    let p = check_with_id(ct);
    crate::text::lemma_first_index(cts, p);
    if let Some(i2) = first_index(cts, p) {
        assert(p(cts[i2]));
    }
    assert forall|i: int|
        0 <= i < db.check_types@.len() && (#[trigger] db.check_types@[i]).id@ == ct
            && (forall|h: int| 0 <= h < i ==> (#[trigger] db.check_types@[h]).id@ != ct)
            && (forall|l: int| 0 <= l < db.check_types@[i].tiers@.len() ==> (#[trigger] db.check_types@[i].tiers@[l]).id@ != t)
        implies db.spec_tier(ct, t) is None && db.spec_dc(ct, t) == 12 by {
        match first_index(cts, p) {
            Some(i2) => {
                if i2 < i {
                    assert(cts[i2].id@ != ct);
                }
                if i2 > i {
                    assert(!p(cts[i]));
                }
                assert(i2 == i);
                let ts = cts[i].tiers@;
                crate::text::lemma_first_index(ts, tier_with_id(t));
                if let Some(j) = first_index(ts, tier_with_id(t)) {
                    assert(ts[j].id@ != t);
                }
            },
            None => {
                assert(!p(cts[i]));
            },
        }
    }
}

/// `    {id} (DC {dc}): {triggers}` for one tier.
pub open spec fn tier_line(t: CheckTier) -> Seq<char> {
    "    "@ + t.id@ + " (DC "@ + int_text(t.dc as int) + "): "@ + join(views(t.triggers@), ", "@)
}

/// `{id} [{ability}]\n{tier lines}\n` for one check type.
pub open spec fn check_block(ct: CheckType) -> Seq<char> {
    ct.id@ + " ["@ + ct.ability@ + "]\n"@ + join(ct.tiers@.map_values(|t: CheckTier| tier_line(t)), "\n"@)
        + "\n"@
}

pub open spec fn spec_assessor_context(db: RulesDb, character: Seq<char>) -> Seq<char> {
    "CHECK TYPES AND TIERS:\n"@ + join(db.check_types@.map_values(|ct: CheckType| check_block(ct)), "\n"@)
        + "\nSPECIAL RULES FOR "@ + character + ":\n"@ + db.spec_special_rules_text(character)
}

// ─────────────────────────────── lookups (exec) ────────────────────────────

fn check_index(cts: &Vec<CheckType>, id: &str) -> (r: Option<usize>)
    ensures
        match r {
            Some(i) => first_index(cts@, check_with_id(id@)) == Some(i as int) && i < cts.len(),
            None => first_index(cts@, check_with_id(id@)) is None,
        },
{
    let ghost p = check_with_id(id@);
    let mut i: usize = 0;
    assert(cts@.take(0) =~= Seq::<CheckType>::empty());
    while i < cts.len()
        invariant
            i <= cts.len(),
            p == check_with_id(id@),
            first_index(cts@.take(i as int), p) is None,
        decreases cts.len() - i,
    {
        proof {
            lemma_first_index_step(cts@, p, i as int);
        }
        if str_eq(cts[i].id.as_str(), id) {
            return Some(i);
        }
        i += 1;
    }
    proof {
        lemma_first_index_all(cts@, p);
    }
    None
}

fn tier_index(tiers: &Vec<CheckTier>, id: &str) -> (r: Option<usize>)
    ensures
        match r {
            Some(i) => first_index(tiers@, tier_with_id(id@)) == Some(i as int) && i < tiers.len(),
            None => first_index(tiers@, tier_with_id(id@)) is None,
        },
{
    let ghost p = tier_with_id(id@);
    let mut i: usize = 0;
    assert(tiers@.take(0) =~= Seq::<CheckTier>::empty());
    while i < tiers.len()
        invariant
            i <= tiers.len(),
            p == tier_with_id(id@),
            first_index(tiers@.take(i as int), p) is None,
        decreases tiers.len() - i,
    {
        proof {
            lemma_first_index_step(tiers@, p, i as int);
        }
        if str_eq(tiers[i].id.as_str(), id) {
            return Some(i);
        }
        i += 1;
    }
    proof {
        lemma_first_index_all(tiers@, p);
    }
    None
}

fn character_index(chars: &Vec<CharacterRules>, name: &str) -> (r: Option<usize>)
    ensures
        match r {
            Some(i) => first_index(chars@, character_named(name@)) == Some(i as int) && i < chars.len(),
            None => first_index(chars@, character_named(name@)) is None,
        },
{
    let ghost p = character_named(name@);
    let mut i: usize = 0;
    assert(chars@.take(0) =~= Seq::<CharacterRules>::empty());
    while i < chars.len()
        invariant
            i <= chars.len(),
            p == character_named(name@),
            first_index(chars@.take(i as int), p) is None,
        decreases chars.len() - i,
    {
        proof {
            lemma_first_index_step(chars@, p, i as int);
        }
        if str_eq_ignore_ascii_case(chars[i].name.as_str(), name) {
            return Some(i);
        }
        i += 1;
    }
    proof {
        lemma_first_index_all(chars@, p);
    }
    None
}

fn ability_index(abilities: &Vec<AbilityEntry>, name: &str) -> (r: Option<usize>)
    ensures
        match r {
            Some(i) => first_index(abilities@, ability_named(name@)) == Some(i as int) && i < abilities.len(),
            None => first_index(abilities@, ability_named(name@)) is None,
        },
{
    let ghost p = ability_named(name@);
    let mut i: usize = 0;
    assert(abilities@.take(0) =~= Seq::<AbilityEntry>::empty());
    while i < abilities.len()
        invariant
            i <= abilities.len(),
            p == ability_named(name@),
            first_index(abilities@.take(i as int), p) is None,
        decreases abilities.len() - i,
    {
        proof {
            lemma_first_index_step(abilities@, p, i as int);
        }
        if str_eq_ignore_ascii_case(abilities[i].name.as_str(), name) {
            return Some(i);
        }
        i += 1;
    }
    proof {
        lemma_first_index_all(abilities@, p);
    }
    None
}

impl RulesDb {
    /// The first tier of the first check type with these ids, if any.
    pub fn tier(&self, check_type: &str, tier: &str) -> (r: Option<&CheckTier>)
        ensures
            match r {
                Some(t) => self.spec_tier(check_type@, tier@) == Some(*t),
                None => self.spec_tier(check_type@, tier@) is None,
            },
    {
        match check_index(&self.check_types, check_type) {
            Some(i) => {
                let ct = &self.check_types[i];
                match tier_index(&ct.tiers, tier) {
                    Some(j) => Some(&ct.tiers[j]),
                    None => None,
                }
            },
            None => None,
        }
    }

    /// Resolve modifier for a character + ability/save name. Returns 0 if not found.
    pub fn modifier(&self, character: &str, ability: &str) -> (r: i32)
        ensures
            r == self.spec_modifier(character@, ability@),
    {
        match character_index(&self.characters, character) {
            Some(i) => {
                let c = &self.characters[i];
                match ability_index(&c.abilities, ability) {
                    Some(k) => c.abilities[k].modifier,
                    None => 0,
                }
            },
            None => 0,
        }
    }

    /// Resolve DC for a check_type + tier. Returns 12 as a safe default.
    pub fn dc(&self, check_type: &str, tier: &str) -> (r: i32)
        ensures
            r == self.spec_dc(check_type@, tier@),
    {
        match self.tier(check_type, tier) {
            Some(t) => t.dc,
            None => 12,
        }
    }

    /// Return on_fail / on_success prose for a check_type + tier.
    pub fn consequences(&self, check_type: &str, tier: &str) -> (r: (&str, &str))
        ensures
            match self.spec_tier(check_type@, tier@) {
                Some(t) => r.0@ == t.on_fail@ && r.1@ == t.on_success@,
                None => r.0@ == "Failure consequence."@ && r.1@ == "Success."@,
            },
    {
        match self.tier(check_type, tier) {
            Some(t) => (t.on_fail.as_str(), t.on_success.as_str()),
            None => ("Failure consequence.", "Success."),
        }
    }

    /// Return the ability name for a check_type (Intelligence for cosmic_dread, etc.).
    pub fn ability_for_check(&self, check_type: &str) -> (r: &str)
        ensures
            match self.spec_check(check_type@) {
                Some(ct) => r@ == ct.ability@,
                None => r@ == "Unknown"@,
            },
    {
        match check_index(&self.check_types, check_type) {
            Some(i) => self.check_types[i].ability.as_str(),
            None => "Unknown",
        }
    }

    /// Special rules for a character as a single formatted string.
    pub fn special_rules_text(&self, character: &str) -> (r: String)
        ensures
            r@ == self.spec_special_rules_text(character@),
    {
        match character_index(&self.characters, character) {
            Some(i) => {
                let rules = &self.characters[i].special_rules;
                let ghost f = |r: SpecialRule| "- "@ + r.description@;
                let mut lines: Vec<String> = Vec::new();
                let mut k: usize = 0;
                while k < rules.len()
                    invariant
                        k <= rules.len(),
                        f == (|r: SpecialRule| "- "@ + r.description@),
                        views(lines@) == rules@.take(k as int).map_values(f),
                    decreases rules.len() - k,
                {
                    let mut line = String::new();
                    push_str(&mut line, "- ");
                    push_str(&mut line, rules[k].description.as_str());
                    proof {
                        lemma_views_push(lines@, line);
                        lemma_map_take_step(rules@, f, k as int);
                    }
                    lines.push(line);
                    k += 1;
                }
                assert(rules@.take(rules.len() as int) =~= rules@);
                join_strings(&lines, "\n")
            },
            None => String::new(),
        }
    }

    /// Format rules context for RulesAssessor — check type list + character special rules.
    pub fn assessor_context(&self, character: &str) -> (r: String)
        ensures
            r@ == spec_assessor_context(*self, character@),
    {
        let ghost f = |ct: CheckType| check_block(ct);
        let mut blocks: Vec<String> = Vec::new();
        let mut i: usize = 0;
        while i < self.check_types.len()
            invariant
                i <= self.check_types.len(),
                f == (|ct: CheckType| check_block(ct)),
                views(blocks@) == self.check_types@.take(i as int).map_values(f),
            decreases self.check_types.len() - i,
        {
            let b = check_block_text(&self.check_types[i]);
            proof {
                lemma_views_push(blocks@, b);
                lemma_map_take_step(self.check_types@, f, i as int);
            }
            blocks.push(b);
            i += 1;
        }
        assert(self.check_types@.take(self.check_types.len() as int) =~= self.check_types@);
        let check_types = join_strings(&blocks, "\n");
        let special = self.special_rules_text(character);
        let mut r = String::new();
        push_str(&mut r, "CHECK TYPES AND TIERS:\n");
        push_str(&mut r, check_types.as_str());
        push_str(&mut r, "\nSPECIAL RULES FOR ");
        push_str(&mut r, character);
        push_str(&mut r, ":\n");
        push_str(&mut r, special.as_str());
        assert(r@ =~= spec_assessor_context(*self, character@));
        r
    }
}

fn tier_line_text(t: &CheckTier) -> (r: String)
    ensures
        r@ == tier_line(*t),
{
    let mut r = String::new();
    push_str(&mut r, "    ");
    push_str(&mut r, t.id.as_str());
    push_str(&mut r, " (DC ");
    push_int(&mut r, t.dc as i64);
    push_str(&mut r, "): ");
    let triggers = join_strings(&t.triggers, ", ");
    push_str(&mut r, triggers.as_str());
    assert(r@ =~= tier_line(*t));
    r
}

fn check_block_text(ct: &CheckType) -> (r: String)
    ensures
        r@ == check_block(*ct),
{
    let ghost f = |t: CheckTier| tier_line(t);
    let mut lines: Vec<String> = Vec::new();
    let mut j: usize = 0;
    while j < ct.tiers.len()
        invariant
            j <= ct.tiers.len(),
            f == (|t: CheckTier| tier_line(t)),
            views(lines@) == ct.tiers@.take(j as int).map_values(f),
        decreases ct.tiers.len() - j,
    {
        let l = tier_line_text(&ct.tiers[j]);
        proof {
            lemma_views_push(lines@, l);
            lemma_map_take_step(ct.tiers@, f, j as int);
        }
        lines.push(l);
        j += 1;
    }
    assert(ct.tiers@.take(ct.tiers.len() as int) =~= ct.tiers@);
    let tiers = join_strings(&lines, "\n");
    let mut r = String::new();
    push_str(&mut r, ct.id.as_str());
    push_str(&mut r, " [");
    push_str(&mut r, ct.ability.as_str());
    push_str(&mut r, "]\n");
    push_str(&mut r, tiers.as_str());
    push_str(&mut r, "\n");
    assert(r@ =~= check_block(*ct));
    r
}

} // verus!
