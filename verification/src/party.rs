//! Party state: each character's Dread, Cosmic Dread Points and conditions,
//! the deterministic effects that rules apply to it, the structured
//! character-impact lines that update it, and its markdown rendering.
use vstd::prelude::*;

use crate::text::{
    chars_eq_str, copy_string, decimal, decimal_chars, first_index, join, join_strings,
    lemma_first_index, lemma_map_take_step, lemma_seq_lt_asym, lemma_seq_lt_irrefl,
    lemma_seq_lt_total, lemma_seq_lt_trans, lemma_views_push, lines, lines_chars, deep, parse_u8,
    parse_u8_chars, push_chars, push_str, seq_lt, splitn, splitn_chars, starts_with, str_eq,
    str_lt, string_of, strip_prefix_chars, trim, trim_chars, views, owned,
};

verus! {

/// One character's tracked state.
pub struct CharState {
    pub dread: u8,
    pub cdp: u8,
    pub conditions: Vec<String>,
}

pub struct CharStateView {
    pub dread: u8,
    pub cdp: u8,
    pub conditions: Seq<Seq<char>>,
}

impl View for CharState {
    type V = CharStateView;

    open spec fn view(&self) -> CharStateView {
        CharStateView { dread: self.dread, cdp: self.cdp, conditions: views(self.conditions@) }
    }
}

pub open spec fn fresh_state() -> CharStateView {
    CharStateView { dread: 0, cdp: 0, conditions: Seq::empty() }
}

pub open spec fn sat_add(a: u8, b: u8) -> u8 {
    if a + b > 255 { 255 } else { (a + b) as u8 }
}

/// One effect from `rules.toml`: `cdp+N`, `dread+N` (saturating, ignored when
/// N is not a `u8`), `condition:clear`, or `condition:Name` (added once).
pub open spec fn apply_effect(s: CharStateView, e: Seq<char>) -> CharStateView {
    if starts_with(e, "cdp+"@) {
        match parse_u8(e.skip("cdp+"@.len() as int)) {
            Some(n) => CharStateView { cdp: sat_add(s.cdp, n), ..s },
            None => s,
        }
    } else if starts_with(e, "dread+"@) {
        match parse_u8(e.skip("dread+"@.len() as int)) {
            Some(n) => CharStateView { dread: sat_add(s.dread, n), ..s },
            None => s,
        }
    } else if starts_with(e, "condition:"@) {
        let cond = e.skip("condition:"@.len() as int);
        if cond == "clear"@ {
            CharStateView { conditions: Seq::empty(), ..s }
        } else if s.conditions.contains(cond) {
            s
        } else {
            CharStateView { conditions: s.conditions.push(cond), ..s }
        }
    } else {
        s
    }
}

/// Effects applied in order.
pub open spec fn apply_effect_list(s: CharStateView, es: Seq<Seq<char>>) -> CharStateView
    decreases es.len(),
{
    if es.len() == 0 {
        s
    } else {
        apply_effect(apply_effect_list(s, es.drop_last()), es.last())
    }
}

fn has_condition(conds: &Vec<String>, c: &str) -> (r: bool)
    ensures
        r == views(conds@).contains(c@),
{
    let mut i: usize = 0;
    while i < conds.len()
        invariant
            i <= conds.len(),
            forall|k: int| 0 <= k < i ==> conds@[k]@ != c@,
        decreases conds.len() - i,
    {
        if str_eq(conds[i].as_str(), c) {
            assert(views(conds@)[i as int] == c@);
            return true;
        }
        i += 1;
    }
    proof {
        if views(conds@).contains(c@) {
            let k = choose|k: int| 0 <= k < views(conds@).len() && views(conds@)[k] == c@;
            assert(conds@[k]@ == c@);
        }
    }
    false
}

fn sat_add_u8(a: u8, b: u8) -> (r: u8)
    ensures
        r == sat_add(a, b),
{
    if a as u16 + b as u16 > 255 { 255 } else { a + b }
}

fn apply_one_effect(entry: &mut CharState, effect: &String)
    ensures
        final(entry)@ == apply_effect(old(entry)@, effect@),
{
    let e = crate::text::to_chars(effect.as_str());
    if let Some(rest) = strip_prefix_chars(&e, "cdp+") {
        if let Some(n) = parse_u8_chars(&rest) {
            entry.cdp = sat_add_u8(entry.cdp, n);
        }
    } else if let Some(rest) = strip_prefix_chars(&e, "dread+") {
        if let Some(n) = parse_u8_chars(&rest) {
            entry.dread = sat_add_u8(entry.dread, n);
        }
    } else if let Some(cond) = strip_prefix_chars(&e, "condition:") {
        if chars_eq_str(&cond, "clear") {
            entry.conditions.clear();
            assert(views(entry.conditions@) =~= Seq::<Seq<char>>::empty());
        } else {
            let c = string_of(&cond);
            if !has_condition(&entry.conditions, c.as_str()) {
                let ghost before = entry.conditions@;
                proof {
                    lemma_views_push(before, c);
                }
                entry.conditions.push(c);
            }
        }
    }
    assert(final(entry)@ =~= apply_effect(old(entry)@, effect@));
}

/// Apply a slice of effect strings from rules.toml to a single character's state.
///
/// Effect grammar:
///   "cdp+N"           — increment CDP by N
///   "dread+N"         — increment Dread by N
///   "condition:Name"  — add named condition
///   "condition:clear" — clear all conditions
pub fn apply_effects(entry: &mut CharState, effects: &[String])
    ensures
        final(entry)@ == apply_effect_list(old(entry)@, views(effects@)),
{
    let ghost s0 = entry@;
    let mut i: usize = 0;
    assert(views(effects@).take(0) =~= Seq::<Seq<char>>::empty());
    while i < effects.len()
        invariant
            i <= effects.len(),
            entry@ == apply_effect_list(s0, views(effects@).take(i as int)),
        decreases effects.len() - i,
    {
        apply_one_effect(entry, &effects[i]);
        assert(views(effects@).take(i + 1).drop_last() =~= views(effects@).take(i as int));
        i += 1;
    }
    assert(views(effects@).take(effects.len() as int) =~= views(effects@));
}

/// No condition is listed twice.
pub open spec fn distinct_conditions(s: CharStateView) -> bool {
    forall|i: int, j: int| 0 <= i < j < s.conditions.len() ==> #[trigger] s.conditions[i] != #[trigger] s.conditions[j]
}

/// Effects never lower Dread or Cosmic Dread Points, and never list a
/// condition twice when none was listed twice before.
pub proof fn law_effects_monotone(s: CharStateView, es: Seq<Seq<char>>)
    ensures
        apply_effect_list(s, es).dread >= s.dread,
        apply_effect_list(s, es).cdp >= s.cdp,
        distinct_conditions(s) ==> distinct_conditions(apply_effect_list(s, es)),
    decreases es.len(),
{
    if es.len() > 0 {
        law_effects_monotone(s, es.drop_last());
        let p = apply_effect_list(s, es.drop_last());
        let q = apply_effect_list(s, es);
        let e = es.last();
        assert(q == apply_effect(p, e));
        if distinct_conditions(s) && starts_with(e, "condition:"@) && !starts_with(e, "cdp+"@) && !starts_with(e, "dread+"@) {
            let cond = e.skip("condition:"@.len() as int);
            if cond != "clear"@ && !p.conditions.contains(cond) {
                assert forall|i: int, j: int| 0 <= i < j < q.conditions.len() implies #[trigger] q.conditions[i] != #[trigger] q.conditions[j] by {
                    if j == p.conditions.len() {
                        assert(q.conditions[j] == cond);
                        assert(q.conditions[i] == p.conditions[i]);
                    } else {
                        assert(q.conditions[i] == p.conditions[i] && q.conditions[j] == p.conditions[j]);
                    }
                }
            }
        }
    }
}


/// The amount an effect adds through `prefix` (`cdp+` or `dread+`): its
/// number when it has that prefix and the number is a `u8`, else 0.
pub open spec fn effect_amount(e: Seq<char>, prefix: Seq<char>) -> int {
    if starts_with(e, prefix) {
        match parse_u8(e.skip(prefix.len() as int)) {
            Some(n) => n as int,
            None => 0,
        }
    } else {
        0
    }
}

/// The sum of what a list of effects adds through `prefix`.
pub open spec fn effect_total(es: Seq<Seq<char>>, prefix: Seq<char>) -> int
    decreases es.len(),
{
    if es.len() == 0 {
        0
    } else {
        effect_total(es.drop_last(), prefix) + effect_amount(es.last(), prefix)
    }
}

pub open spec fn cap255(x: int) -> int {
    if x > 255 { 255 } else { x }
}

/// The condition an effect names (`condition:Name`), if it names one.
pub open spec fn effect_condition(e: Seq<char>) -> Option<Seq<char>> {
    if !starts_with(e, "cdp+"@) && !starts_with(e, "dread+"@) && starts_with(e, "condition:"@) {
        Some(e.skip("condition:"@.len() as int))
    } else {
        None
    }
}

/// Whether an effect at or after position `from` clears the conditions.
pub open spec fn clears_from(es: Seq<Seq<char>>, from: int) -> bool {
    exists|k: int| from <= k < es.len() && #[trigger] effect_condition(es[k]) == Some("clear"@)
}

/// A condition is added by an effect after every clear in the list.
pub open spec fn added_after_clears(es: Seq<Seq<char>>, c: Seq<char>) -> bool {
    c != "clear"@ && exists|k: int| 0 <= k < es.len() && #[trigger] effect_condition(es[k]) == Some(c) && !clears_from(es, k + 1)
}

/// A list of condition names with `c` added at the end unless present.
pub open spec fn push_new(cs: Seq<Seq<char>>, c: Seq<char>) -> Seq<Seq<char>> {
    if cs.contains(c) { cs } else { cs.push(c) }
}

/// Condition names added one by one, each at most once, in order.
pub open spec fn add_all(cs: Seq<Seq<char>>, names: Seq<Seq<char>>) -> Seq<Seq<char>>
    decreases names.len(),
{
    if names.len() == 0 {
        cs
    } else {
        push_new(add_all(cs, names.drop_last()), names.last())
    }
}

/// The conditions the effects name after their last `condition:clear`, in
/// order.
pub open spec fn named_after_clears(es: Seq<Seq<char>>) -> Seq<Seq<char>>
    decreases es.len(),
{
    if es.len() == 0 {
        Seq::empty()
    } else {
        let p = named_after_clears(es.drop_last());
        match effect_condition(es.last()) {
            Some(c) => if c == "clear"@ { Seq::empty() } else { p.push(c) },
            None => p,
        }
    }
}

/// The order of conditions: afterwards a character's conditions are its
/// old ones (none, if an effect cleared them) followed by each condition
/// named after the last clear, in the order first named, each once.
pub proof fn law_effect_condition_order(s: CharStateView, es: Seq<Seq<char>>)
    ensures
        apply_effect_list(s, es).conditions == add_all(
            if clears_from(es, 0) { Seq::empty() } else { s.conditions },
            named_after_clears(es),
        ),
    decreases es.len(),
{
    reveal_strlit("cdp+");
    reveal_strlit("dread+");
    reveal_strlit("condition:");
    reveal_strlit("clear");
    if es.len() > 0 {
        let q = es.drop_last();
        law_effect_condition_order(s, q);
        let e = es.last();
        let n = es.len() - 1;
        let p = apply_effect_list(s, q);
        assert(apply_effect_list(s, es) == apply_effect(p, e));
        if starts_with(e, "cdp+"@) {
            assert(e.subrange(0, 4)[0] == e[0]);
            assert("cdp+"@[0] == 'c');
            if starts_with(e, "dread+"@) {
                assert(e.subrange(0, 6)[0] == e[0]);
                assert("dread+"@[0] == 'd');
            }
            if starts_with(e, "condition:"@) {
                assert(e.subrange(0, 10)[1] == e[1]);
                assert(e.subrange(0, 4)[1] == e[1]);
                assert("condition:"@[1] == 'o');
                assert("cdp+"@[1] == 'd');
            }
        }
        if starts_with(e, "dread+"@) && starts_with(e, "condition:"@) {
            assert(e.subrange(0, 10)[0] == e[0]);
            assert(e.subrange(0, 6)[0] == e[0]);
            assert("condition:"@[0] == 'c');
            assert("dread+"@[0] == 'd');
        }
        assert forall|k: int| 0 <= k < q.len() implies #[trigger] q[k] == es[k] by {}
        let ce = effect_condition(e);
        assert(clears_from(es, 0) == (clears_from(q, 0) || ce == Some("clear"@))) by {
            if clears_from(es, 0) {
                let w = choose|w: int| 0 <= w < es.len() && #[trigger] effect_condition(es[w]) == Some("clear"@);
                if w < q.len() {
                    assert(effect_condition(q[w]) == Some("clear"@));
                }
            }
            if clears_from(q, 0) {
                let w = choose|w: int| 0 <= w < q.len() && #[trigger] effect_condition(q[w]) == Some("clear"@);
                assert(effect_condition(es[w]) == Some("clear"@));
            }
            if ce == Some("clear"@) {
                assert(effect_condition(es[n]) == Some("clear"@));
            }
        }
        let base_q: Seq<Seq<char>> = if clears_from(q, 0) { Seq::empty() } else { s.conditions };
        let nq = named_after_clears(q);
        assert(p.conditions == add_all(base_q, nq));
        match ce {
            Some(c) => {
                let cond = e.skip("condition:"@.len() as int);
                assert(cond == c);
                if c == "clear"@ {
                    assert(apply_effect(p, e).conditions =~= Seq::<Seq<char>>::empty());
                    assert(named_after_clears(es) =~= Seq::<Seq<char>>::empty());
                } else {
                    assert(named_after_clears(es) == nq.push(c));
                    assert(nq.push(c).drop_last() =~= nq);
                    assert(add_all(base_q, nq.push(c)) == push_new(add_all(base_q, nq), c));
                    assert(apply_effect(p, e).conditions == push_new(p.conditions, c));
                }
            },
            None => {
                assert(named_after_clears(es) == nq);
                assert(apply_effect(p, e).conditions == p.conditions);
            },
        }
    }
}

/// The whole effect law: Dread and Cosmic Dread Points become the old value
/// plus everything the effects add, capped at 255 (so neither decreases);
/// a character has a condition afterwards exactly when an effect added it
/// after the last `condition:clear`, or when it had it and nothing cleared;
/// and no condition is listed twice when none was before.
pub proof fn law_effects(s: CharStateView, es: Seq<Seq<char>>)
    ensures
        apply_effect_list(s, es).cdp == cap255(s.cdp + effect_total(es, "cdp+"@)),
        apply_effect_list(s, es).dread == cap255(s.dread + effect_total(es, "dread+"@)),
        forall|c: Seq<char>| #[trigger] apply_effect_list(s, es).conditions.contains(c) <==> (added_after_clears(es, c)
            || (s.conditions.contains(c) && !clears_from(es, 0))),
        distinct_conditions(s) ==> distinct_conditions(apply_effect_list(s, es)),
    decreases es.len(),
{
    law_effects_monotone(s, es);
    if es.len() > 0 {
        let q = es.drop_last();
        law_effects(s, q);
        let p = apply_effect_list(s, q);
        let r = apply_effect_list(s, es);
        let e = es.last();
        let n = es.len() - 1;
        assert(r == apply_effect(p, e));
        reveal_strlit("cdp+");
        reveal_strlit("dread+");
        reveal_strlit("condition:");
        reveal_strlit("clear");
        assert(forall|k: int| 0 <= k < q.len() ==> q[k] == es[k]);
        if starts_with(e, "cdp+"@) {
            assert(e.subrange(0, 4)[0] == e[0]);
            assert("cdp+"@[0] == 'c');
            assert(e[0] == 'c');
            if starts_with(e, "dread+"@) {
                assert(e.subrange(0, 6)[0] == e[0]);
                assert("dread+"@[0] == 'd');
            }
            assert(!starts_with(e, "dread+"@));
        }
        assert forall|c: Seq<char>| #[trigger] r.conditions.contains(c) <==> (added_after_clears(es, c)
            || (s.conditions.contains(c) && !clears_from(es, 0))) by {
            assert(p.conditions.contains(c) <==> (added_after_clears(q, c) || (s.conditions.contains(c) && !clears_from(q, 0))));
            // relate the clears and additions of `es` to those of `q`
            assert forall|k: int| 0 <= k <= q.len() implies #[trigger] clears_from(es, k) == (clears_from(q, k)
                || effect_condition(e) == Some("clear"@)) by {
                if clears_from(es, k) {
                    let w = choose|w: int| k <= w < es.len() && #[trigger] effect_condition(es[w]) == Some("clear"@);
                    if w < q.len() {
                        assert(effect_condition(q[w]) == Some("clear"@));
                    }
                }
                if clears_from(q, k) {
                    let w = choose|w: int| k <= w < q.len() && #[trigger] effect_condition(q[w]) == Some("clear"@);
                    assert(effect_condition(es[w]) == Some("clear"@));
                }
                if effect_condition(e) == Some("clear"@) {
                    assert(effect_condition(es[n]) == Some("clear"@));
                }
            }
            assert(clears_from(es, 0) == (clears_from(q, 0) || effect_condition(e) == Some("clear"@)));
            if effect_condition(e) == Some("clear"@) {
                assert(r.conditions =~= Seq::<Seq<char>>::empty());
                if added_after_clears(es, c) {
                    let w = choose|w: int| 0 <= w < es.len() && #[trigger] effect_condition(es[w]) == Some(c) && !clears_from(es, w + 1);
                    if w < n {
                        assert(clears_from(es, w + 1)) by {
                            assert(effect_condition(es[n]) == Some("clear"@));
                        }
                    }
                }
            } else {
                assert(!clears_from(es, n)) by {
                    if clears_from(es, n) {
                        let w = choose|w: int| n <= w < es.len() && #[trigger] effect_condition(es[w]) == Some("clear"@);
                        assert(w == n);
                    }
                }
                let added_es = added_after_clears(es, c);
                let added_q = added_after_clears(q, c);
                if added_q {
                    let w = choose|w: int| 0 <= w < q.len() && #[trigger] effect_condition(q[w]) == Some(c) && !clears_from(q, w + 1);
                    assert(effect_condition(es[w]) == Some(c));
                    assert(!clears_from(es, w + 1));
                }
                if added_es {
                    let w = choose|w: int| 0 <= w < es.len() && #[trigger] effect_condition(es[w]) == Some(c) && !clears_from(es, w + 1);
                    if w < n {
                        assert(effect_condition(q[w]) == Some(c));
                        assert(!clears_from(q, w + 1));
                    }
                }
                if effect_condition(e) == Some(c) && c != "clear"@ {
                    assert(effect_condition(es[n]) == Some(c));
                    assert(!clears_from(es, n + 1));
                    assert(added_es);
                    if !p.conditions.contains(c) {
                        assert(r.conditions == p.conditions.push(c));
                        assert(r.conditions[p.conditions.len() as int] == c);
                    }
                } else {
                    assert(added_es == added_q);
                    if starts_with(e, "condition:"@) && !starts_with(e, "cdp+"@) && !starts_with(e, "dread+"@) {
                        let cond = e.skip("condition:"@.len() as int);
                        if !p.conditions.contains(cond) {
                            assert(r.conditions == p.conditions.push(cond));
                            assert(r.conditions.contains(c) ==> p.conditions.contains(c)) by {
                                if r.conditions.contains(c) {
                                    let w = choose|w: int| 0 <= w < r.conditions.len() && r.conditions[w] == c;
                                    if w < p.conditions.len() {
                                        assert(p.conditions[w] == c);
                                    }
                                }
                            }
                            assert(p.conditions.contains(c) ==> r.conditions.contains(c)) by {
                                if p.conditions.contains(c) {
                                    let w = choose|w: int| 0 <= w < p.conditions.len() && p.conditions[w] == c;
                                    assert(r.conditions[w] == c);
                                }
                            }
                        }
                    }
                }
            }
        }
    }
}

/// A tracked character's state is what was last stored for it, and storing
/// it leaves the other characters as they were.
pub proof fn law_stored_state_read_back(m: Map<Seq<char>, CharStateView>, name: Seq<char>, s: CharStateView)
    ensures
        m.insert(name, s).contains_key(name),
        m.insert(name, s)[name] == s,
        forall|other: Seq<char>| other != name ==> (#[trigger] m.insert(name, s).contains_key(other) == m.contains_key(other)
            && (m.contains_key(other) ==> m.insert(name, s)[other] == m[other])),
{
}

fn copy_conditions(v: &Vec<String>) -> (r: Vec<String>)
    ensures
        views(r@) == views(v@),
{
    let mut r: Vec<String> = Vec::new();
    let mut i: usize = 0;
    while i < v.len()
        invariant
            i <= v.len(),
            views(r@) == views(v@).take(i as int),
        decreases v.len() - i,
    {
        let c = copy_string(&v[i]);
        proof {
            lemma_views_push(r@, c);
        }
        r.push(c);
        assert(views(r@) =~= views(v@).take(i + 1));
        i += 1;
    }
    assert(views(v@).take(v.len() as int) =~= views(v@));
    r
}

impl CharState {
    /// A copy of this state.
    pub fn duplicate(&self) -> (r: CharState)
        ensures
            r@ == self@,
    {
        CharState { dread: self.dread, cdp: self.cdp, conditions: copy_conditions(&self.conditions) }
    }

    /// The state of a character not yet tracked.
    pub fn fresh() -> (r: CharState)
        ensures
            r@ == fresh_state(),
    {
        let r = CharState { dread: 0, cdp: 0, conditions: Vec::new() };
        assert(r@.conditions =~= Seq::<Seq<char>>::empty());
        r
    }
}

// ─────────────────────────────── party state ───────────────────────────────

/// One tracked character.
pub struct PartyEntry {
    pub name: String,
    pub state: CharState,
}

/// Every tracked character, kept in increasing name order (so each name
/// occurs once).
pub struct PartyState {
    entries: Vec<PartyEntry>,
}

pub open spec fn entry_pair(e: PartyEntry) -> (Seq<char>, CharStateView) {
    (e.name@, e.state@)
}

pub open spec fn key_is(k: Seq<char>) -> spec_fn((Seq<char>, CharStateView)) -> bool {
    |p: (Seq<char>, CharStateView)| p.0 == k
}

/// The state stored under a name in a list of pairs (its first occurrence).
pub open spec fn lookup(m: Seq<(Seq<char>, CharStateView)>, k: Seq<char>) -> Option<CharStateView> {
    match first_index(m, key_is(k)) {
        Some(i) => Some(m[i].1),
        None => None,
    }
}

pub open spec fn pairs_to_map(m: Seq<(Seq<char>, CharStateView)>) -> Map<Seq<char>, CharStateView> {
    Map::new(|k: Seq<char>| lookup(m, k) is Some, |k: Seq<char>| lookup(m, k)->0)
}

pub open spec fn sorted_keys(m: Seq<(Seq<char>, CharStateView)>) -> bool {
    forall|i: int, j: int| 0 <= i < j < m.len() ==> seq_lt(#[trigger] m[i].0, #[trigger] m[j].0)
}

proof fn lemma_lookup_at(m: Seq<(Seq<char>, CharStateView)>, i: int)
    requires
        sorted_keys(m),
        0 <= i < m.len(),
    ensures
        lookup(m, m[i].0) == Some(m[i].1),
{
    let k = m[i].0;
    lemma_first_index(m, key_is(k));
    match first_index(m, key_is(k)) {
        Some(j) => {
            if j != i {
                if j < i {
                    assert(seq_lt(m[j].0, m[i].0));
                } else {
                    assert(seq_lt(m[i].0, m[j].0));
                }
                lemma_seq_lt_irrefl(k);
            }
        },
        None => {
            assert(key_is(k)(m[i]));
        },
    }
}

proof fn lemma_lookup_absent(m: Seq<(Seq<char>, CharStateView)>, k: Seq<char>)
    requires
        forall|i: int| 0 <= i < m.len() ==> m[i].0 != k,
    ensures
        lookup(m, k) is None,
{
    lemma_first_index(m, key_is(k));
    match first_index(m, key_is(k)) {
        Some(j) => {
            assert(m[j].0 == k);
        },
        None => {},
    }
}

proof fn lemma_lookup_some(m: Seq<(Seq<char>, CharStateView)>, k: Seq<char>)
    requires
        sorted_keys(m),
    ensures
        lookup(m, k) is Some <==> exists|i: int| 0 <= i < m.len() && m[i].0 == k,
        lookup(m, k) is Some ==> exists|i: int| 0 <= i < m.len() && m[i].0 == k && m[i].1 == lookup(m, k)->0,
{
    lemma_first_index(m, key_is(k));
    if exists|i: int| 0 <= i < m.len() && m[i].0 == k {
        let i = choose|i: int| 0 <= i < m.len() && m[i].0 == k;
        lemma_lookup_at(m, i);
    }
}

impl PartyState {
    pub closed spec fn pairs(&self) -> Seq<(Seq<char>, CharStateView)> {
        self.entries@.map_values(|e: PartyEntry| entry_pair(e))
    }

    /// Names are strictly increasing.
    pub closed spec fn wf(&self) -> bool {
        sorted_keys(self.pairs())
    }

    /// Each tracked name with its state.
    pub open spec fn view(&self) -> Map<Seq<char>, CharStateView> {
        pairs_to_map(self.pairs())
    }

    /// The tracked names with their states, in increasing name order.
    pub open spec fn rows(&self) -> Seq<(Seq<char>, CharStateView)> {
        self.pairs()
    }

    /// The rows of a party list every tracked character once, in increasing
    /// name order, each with its stored state.
    pub proof fn law_rows_list_the_party(&self)
        requires
            self.wf(),
        ensures
            sorted_keys(self.rows()),
            forall|i: int| 0 <= i < self.rows().len() ==>
                #[trigger] self.view().contains_key(self.rows()[i].0)
                && self.view()[self.rows()[i].0] == self.rows()[i].1,
            forall|k: Seq<char>| #[trigger] self.view().contains_key(k) ==>
                exists|i: int| 0 <= i < self.rows().len() && self.rows()[i].0 == k,
    {
        assert forall|i: int| 0 <= i < self.rows().len() implies
            #[trigger] self.view().contains_key(self.rows()[i].0)
            && self.view()[self.rows()[i].0] == self.rows()[i].1 by {
            lemma_lookup_at(self.pairs(), i);
        }
        assert forall|k: Seq<char>| #[trigger] self.view().contains_key(k) implies
            exists|i: int| 0 <= i < self.rows().len() && self.rows()[i].0 == k by {
            assert(lookup(self.pairs(), k) is Some);
            lemma_lookup_some(self.pairs(), k);
            let m = self.pairs();
            let i = choose|i: int| 0 <= i < m.len() && m[i].0 == k;
            assert(self.rows()[i].0 == k);
        }
    }

    /// No character tracked.
    pub fn new() -> (r: PartyState)
        ensures
            r.wf(),
            r.view() == Map::<Seq<char>, CharStateView>::empty(),
    {
        let r = PartyState { entries: Vec::new() };
        assert(r.pairs() =~= Seq::<(Seq<char>, CharStateView)>::empty());
        assert forall|k: Seq<char>| !r.view().contains_key(k) by {
            lemma_lookup_absent(r.pairs(), k);
        }
        assert(r.view() =~= Map::<Seq<char>, CharStateView>::empty());
        r
    }

    /// The tracked characters, in increasing name order.
    pub fn entries(&self) -> (r: &Vec<PartyEntry>)
        ensures
            r@.map_values(|e: PartyEntry| entry_pair(e)) == self.rows(),
    {
        &self.entries
    }

    /// The state of a character, if tracked.
    pub fn get(&self, name: &str) -> (r: Option<&CharState>)
        requires
            self.wf(),
        ensures
            match r {
                Some(s) => self.view().contains_key(name@) && self.view()[name@] == s@,
                None => !self.view().contains_key(name@),
            },
    {
        let mut i: usize = 0;
        while i < self.entries.len()
            invariant
                self.wf(),
                i <= self.entries.len(),
                forall|k: int| 0 <= k < i ==> self.entries@[k].name@ != name@,
            decreases self.entries.len() - i,
        {
            if str_eq(self.entries[i].name.as_str(), name) {
                proof {
                    assert(self.pairs()[i as int] == entry_pair(self.entries@[i as int]));
                    lemma_lookup_at(self.pairs(), i as int);
                }
                return Some(&self.entries[i].state);
            }
            i += 1;
        }
        proof {
            assert forall|k: int| 0 <= k < self.pairs().len() implies self.pairs()[k].0 != name@ by {
                assert(self.pairs()[k] == entry_pair(self.entries@[k]));
            }
            lemma_lookup_absent(self.pairs(), name@);
        }
        None
    }

    /// Index of the character's entry, inserting a fresh state when the
    /// name is not tracked yet (`entry(name).or_insert(..)`).
    fn entry_index(&mut self, name: &str) -> (r: usize)
        requires
            old(self).wf(),
        ensures
            final(self).wf(),
            r < final(self).entries.len(),
            final(self).entries@[r as int].name@ == name@,
            final(self).view() == if old(self).view().contains_key(name@) {
                old(self).view()
            } else {
                old(self).view().insert(name@, fresh_state())
            },
    {
        let ghost m = self.pairs();
        let mut i: usize = 0;
        while i < self.entries.len() && str_lt(self.entries[i].name.as_str(), name)
            invariant
                i <= self.entries.len(),
                m == self.pairs(),
                m.len() == self.entries.len(),
                forall|k: int| 0 <= k < i ==> seq_lt(#[trigger] m[k].0, name@),
            decreases self.entries.len() - i,
        {
            assert(m[i as int] == entry_pair(self.entries@[i as int]));
            i += 1;
        }
        if i < self.entries.len() && str_eq(self.entries[i].name.as_str(), name) {
            assert(m[i as int] == entry_pair(self.entries@[i as int]));
            proof {
                lemma_lookup_at(m, i as int);
            }
            return i;
        }
        // Not tracked: every key before `i` is smaller, every key from `i` on larger.
        proof {
            if i < self.entries.len() {
                assert(m[i as int] == entry_pair(self.entries@[i as int]));
                lemma_seq_lt_total(m[i as int].0, name@);
            }
            assert forall|k: int| 0 <= k < m.len() implies m[k].0 != name@ by {
                if k < i {
                    lemma_seq_lt_irrefl(name@);
                } else {
                    if k > i {
                        lemma_seq_lt_trans(name@, m[i as int].0, m[k].0);
                    }
                    lemma_seq_lt_irrefl(name@);
                    lemma_seq_lt_asym(name@, m[k].0);
                }
            }
            lemma_lookup_absent(m, name@);
        }
        let e = PartyEntry { name: owned(name), state: CharState::fresh() };
        self.entries.insert(i, e);
        proof {
            let x = (name@, fresh_state());
            let n = self.pairs();
            assert(n =~= m.take(i as int).push(x) + m.skip(i as int));
            assert(n.len() == m.len() + 1);
            assert forall|a: int, b: int| 0 <= a < b < n.len() implies seq_lt(#[trigger] n[a].0, #[trigger] n[b].0) by {
                if b < i {
                    assert(n[a] == m[a] && n[b] == m[b]);
                } else if b == i {
                    assert(n[a] == m[a]);
                } else if a < i {
                    assert(n[a] == m[a] && n[b] == m[b - 1]);
                    if b - 1 > i {
                        lemma_seq_lt_trans(name@, m[i as int].0, m[b - 1].0);
                    }
                    lemma_seq_lt_trans(m[a].0, name@, m[b - 1].0);
                } else if a == i {
                    assert(n[b] == m[b - 1]);
                    if b - 1 > i {
                        lemma_seq_lt_trans(name@, m[i as int].0, m[b - 1].0);
                    }
                } else {
                    assert(n[a] == m[a - 1] && n[b] == m[b - 1]);
                }
            }
            assert(sorted_keys(n));
            assert(n[i as int] == x);
            assert forall|k: Seq<char>| #[trigger] self.view().contains_key(k)
                == old(self).view().insert(name@, fresh_state()).contains_key(k) by {
                lemma_lookup_some(n, k);
                lemma_lookup_some(m, k);
                if k != name@ {
                    if exists|j: int| 0 <= j < m.len() && m[j].0 == k {
                        let j = choose|j: int| 0 <= j < m.len() && m[j].0 == k;
                        if j < i { assert(n[j] == m[j]); } else { assert(n[j + 1] == m[j]); }
                    }
                    if exists|j: int| 0 <= j < n.len() && n[j].0 == k {
                        let j = choose|j: int| 0 <= j < n.len() && n[j].0 == k;
                        if j < i { assert(n[j] == m[j]); } else if j > i { assert(n[j] == m[j - 1]); }
                    }
                } else {
                    lemma_lookup_at(n, i as int);
                }
            }
            assert forall|k: Seq<char>| #[trigger] self.view().contains_key(k) implies
                self.view()[k] == old(self).view().insert(name@, fresh_state())[k] by {
                lemma_lookup_some(n, k);
                lemma_lookup_some(m, k);
                if k == name@ {
                    lemma_lookup_at(n, i as int);
                } else {
                    let j = choose|j: int| 0 <= j < n.len() && n[j].0 == k && n[j].1 == lookup(n, k)->0;
                    if j < i {
                        assert(n[j] == m[j]);
                        lemma_lookup_at(m, j);
                    } else {
                        assert(j != i);
                        assert(n[j] == m[j - 1]);
                        lemma_lookup_at(m, j - 1);
                    }
                }
            }
            assert(self.view() =~= old(self).view().insert(name@, fresh_state()));
        }
        i
    }

    /// Replaces the state stored at an index.
    fn set_state(&mut self, i: usize, s: CharState)
        requires
            old(self).wf(),
            i < old(self).entries.len(),
        ensures
            final(self).wf(),
            final(self).entries.len() == old(self).entries.len(),
            final(self).view() == old(self).view().insert(old(self).entries@[i as int].name@, s@),
    {
        let ghost m = self.pairs();
        let ghost key = self.entries@[i as int].name@;
        let old_entry = self.entries.remove(i);
        let e = PartyEntry { name: old_entry.name, state: s };
        self.entries.insert(i, e);
        proof {
            let n = self.pairs();
            assert(n =~= m.update(i as int, (key, s@)));
            assert forall|a: int, b: int| 0 <= a < b < n.len() implies seq_lt(#[trigger] n[a].0, #[trigger] n[b].0) by {
                assert(n[a].0 == m[a].0 && n[b].0 == m[b].0);
            }
            assert forall|k: Seq<char>| #[trigger] self.view().contains_key(k)
                == old(self).view().insert(key, s@).contains_key(k) by {
                lemma_lookup_some(n, k);
                lemma_lookup_some(m, k);
                if exists|j: int| 0 <= j < m.len() && m[j].0 == k {
                    let j = choose|j: int| 0 <= j < m.len() && m[j].0 == k;
                    assert(n[j].0 == k);
                }
                if exists|j: int| 0 <= j < n.len() && n[j].0 == k {
                    let j = choose|j: int| 0 <= j < n.len() && n[j].0 == k;
                    assert(m[j].0 == k);
                }
                assert(m[i as int].0 == key);
            }
            assert forall|k: Seq<char>| #[trigger] self.view().contains_key(k) implies
                self.view()[k] == old(self).view().insert(key, s@)[k] by {
                lemma_lookup_some(n, k);
                let j = choose|j: int| 0 <= j < n.len() && n[j].0 == k && n[j].1 == lookup(n, k)->0;
                if j == i {
                    lemma_lookup_at(n, j);
                } else {
                    assert(n[j] == m[j]);
                    lemma_lookup_at(m, j);
                    if k == key {
                        assert(m[i as int].0 == key);
                        lemma_seq_lt_irrefl(key);
                        if j < i { assert(seq_lt(m[j].0, m[i as int].0)); } else { assert(seq_lt(m[i as int].0, m[j].0)); }
                    }
                }
            }
            assert(self.view() =~= old(self).view().insert(key, s@));
        }
    }

    /// Stores a character's state, replacing any earlier one.
    pub fn insert(&mut self, name: &str, state: CharState)
        requires
            old(self).wf(),
        ensures
            final(self).wf(),
            final(self).view() == old(self).view().insert(name@, state@),
    {
        let i = self.entry_index(name);
        self.set_state(i, state);
        proof {
            let v1 = if old(self).view().contains_key(name@) { old(self).view() } else { old(self).view().insert(name@, fresh_state()) };
            assert(final(self).view() =~= old(self).view().insert(name@, state@));
        }
    }
}


// ─────────────────────────────── impact lines ──────────────────────────────

/// The state after one `FIELD|Name|Value` update of `cur`.
pub open spec fn impact_update(cur: CharStateView, field: Seq<char>, value: Seq<char>) -> CharStateView {
    if field == "DREAD"@ {
        match parse_u8(value) {
            Some(v) => CharStateView { dread: v, ..cur },
            None => cur,
        }
    } else if field == "CDP"@ {
        match parse_u8(value) {
            Some(v) => CharStateView { cdp: v, ..cur },
            None => cur,
        }
    } else if field == "CONDITION"@ {
        if value == "—"@ || value.len() == 0 {
            CharStateView { conditions: Seq::empty(), ..cur }
        } else if cur.conditions.contains(value) {
            cur
        } else {
            CharStateView { conditions: cur.conditions.push(value), ..cur }
        }
    } else {
        cur
    }
}

/// One line of character-impact output applied to the party. Blank lines,
/// `NO_CHANGE` and lines with fewer than three `|`-separated parts change
/// nothing; otherwise the named character is tracked from then on (fresh
/// if new) and `DREAD`/`CDP` set a value, `CONDITION` adds one (`—` or an
/// empty value clears them), and other fields leave it as it was.
pub open spec fn impact_line(m: Map<Seq<char>, CharStateView>, line: Seq<char>) -> Map<Seq<char>, CharStateView> {
    let l = trim(line);
    if l.len() == 0 || l == "NO_CHANGE"@ {
        m
    } else {
        let parts = splitn(l, '|', 3);
        if parts.len() < 3 {
            m
        } else {
            let field = trim(parts[0]);
            let name = trim(parts[1]);
            let value = trim(parts[2]);
            let cur = if m.contains_key(name) { m[name] } else { fresh_state() };
            m.insert(name, impact_update(cur, field, value))
        }
    }
}

/// Lines applied in order.
pub open spec fn impact_lines(m: Map<Seq<char>, CharStateView>, ls: Seq<Seq<char>>) -> Map<Seq<char>, CharStateView>
    decreases ls.len(),
{
    if ls.len() == 0 {
        m
    } else {
        impact_line(impact_lines(m, ls.drop_last()), ls.last())
    }
}

/// The character a line of impact output updates, if it updates one (see
/// [`impact_line`]).
pub open spec fn impact_name(line: Seq<char>) -> Option<Seq<char>> {
    let l = trim(line);
    if l.len() == 0 || l == "NO_CHANGE"@ {
        None
    } else {
        let parts = splitn(l, '|', 3);
        if parts.len() < 3 {
            None
        } else {
            Some(trim(parts[1]))
        }
    }
}

/// The field and the value a line of impact output names, when it names a
/// character.
pub open spec fn impact_field_value(line: Seq<char>) -> (Seq<char>, Seq<char>) {
    let parts = splitn(trim(line), '|', 3);
    (trim(parts[0]), trim(parts[2]))
}

/// One line of impact output as a whole: it changes only the character it
/// names (who is tracked from then on, starting fresh if new); `DREAD|n|v`
/// and `CDP|n|v` set that value (not add to it) when `v` is a `u8`,
/// `CONDITION|n|—` or an empty value clears the conditions, `CONDITION|n|x`
/// adds `x` once at the end, and anything else leaves the character as it
/// was. A line naming no character changes nothing.
pub proof fn law_impact_line(m: Map<Seq<char>, CharStateView>, line: Seq<char>)
    ensures
        impact_name(line) is None ==> impact_line(m, line) == m,
        impact_name(line) matches Some(n) ==> {
            let (f, v) = impact_field_value(line);
            let old = state_or_fresh(m, n);
            let now = impact_line(m, line)[n];
            &&& impact_line(m, line).dom() == m.dom().insert(n)
            &&& forall|k: Seq<char>| k != n && m.contains_key(k) ==> #[trigger] impact_line(m, line)[k] == m[k]
            &&& (f == "DREAD"@ && parse_u8(v) is Some) ==> now == CharStateView { dread: parse_u8(v)->0, ..old }
            &&& (f == "CDP"@ && parse_u8(v) is Some) ==> now == CharStateView { cdp: parse_u8(v)->0, ..old }
            &&& (f == "CONDITION"@ && (v == "—"@ || v.len() == 0)) ==> now == CharStateView { conditions: Seq::empty(), ..old }
            &&& (f == "CONDITION"@ && v != "—"@ && v.len() > 0) ==> now == CharStateView {
                conditions: push_new(old.conditions, v),
                ..old
            }
            &&& !(f == "DREAD"@ || f == "CDP"@ || f == "CONDITION"@) ==> now == old
        },
{
    reveal_strlit("DREAD");
    reveal_strlit("CDP");
    reveal_strlit("CONDITION");
    reveal_strlit("—");
    assert("DREAD"@.len() == 5 && "CDP"@.len() == 3 && "CONDITION"@.len() == 9);
    if impact_name(line) is Some {
        let n = impact_name(line)->0;
        let l = trim(line);
        let parts = splitn(l, '|', 3);
        assert(parts.len() >= 3);
        assert(impact_name(line) == Some(trim(parts[1])));
        assert(impact_line(m, line).dom() =~= m.dom().insert(n));
    }
}

pub open spec fn touched(ls: Seq<Seq<char>>, n: Seq<char>) -> bool {
    exists|k: int| 0 <= k < ls.len() && #[trigger] impact_name(ls[k]) == Some(n)
}

/// The impact law over keys and untouched characters: afterwards the party
/// tracks exactly the characters it tracked before and those some line
/// names (new ones start fresh), and a character no line names keeps its
/// state; a line naming a character sets `DREAD` or `CDP`, or adds or
/// clears a `CONDITION`, as [`impact_update`] says.
pub proof fn law_impact(m: Map<Seq<char>, CharStateView>, ls: Seq<Seq<char>>)
    ensures
        forall|n: Seq<char>| #[trigger] impact_lines(m, ls).contains_key(n) <==> (m.contains_key(n) || touched(ls, n)),
        forall|n: Seq<char>| !touched(ls, n) && m.contains_key(n) ==> #[trigger] impact_lines(m, ls)[n] == m[n],
    decreases ls.len(),
{
    if ls.len() > 0 {
        let q = ls.drop_last();
        law_impact(m, q);
        let p = impact_lines(m, q);
        let l = ls.last();
        assert(impact_lines(m, ls) == impact_line(p, l));
        assert forall|n: Seq<char>| #[trigger] touched(ls, n) <==> (touched(q, n) || impact_name(l) == Some(n)) by {
            if touched(ls, n) {
                let k = choose|k: int| 0 <= k < ls.len() && #[trigger] impact_name(ls[k]) == Some(n);
                if k < q.len() {
                    assert(impact_name(q[k]) == Some(n));
                }
            }
            if touched(q, n) {
                let k = choose|k: int| 0 <= k < q.len() && #[trigger] impact_name(q[k]) == Some(n);
                assert(impact_name(ls[k]) == Some(n));
            }
            if impact_name(l) == Some(n) {
                assert(impact_name(ls[ls.len() - 1]) == Some(n));
            }
        }
    }
}

fn update_for(cur: &CharState, field: &Vec<char>, value: &Vec<char>) -> (r: CharState)
    ensures
        r@ == impact_update(cur@, field@, value@),
{
    let mut next = cur.duplicate();
    if chars_eq_str(field, "DREAD") {
        if let Some(v) = parse_u8_chars(value) {
            next.dread = v;
        }
    } else if chars_eq_str(field, "CDP") {
        if let Some(v) = parse_u8_chars(value) {
            next.cdp = v;
        }
    } else if chars_eq_str(field, "CONDITION") {
        if chars_eq_str(value, "—") || value.len() == 0 {
            next.conditions.clear();
            assert(views(next.conditions@) =~= Seq::<Seq<char>>::empty());
        } else {
            let c = string_of(value);
            if !has_condition(&next.conditions, c.as_str()) {
                proof {
                    lemma_views_push(next.conditions@, c);
                }
                next.conditions.push(c);
            }
        }
    }
    assert(next@ =~= impact_update(cur@, field@, value@));
    next
}

/// Apply CharacterImpact structured output lines to a PartyState.
///
/// Each change line: `FIELD|Full Character Name|Value`, with fields
/// `DREAD`, `CDP` and `CONDITION`.
pub fn apply_impact_to_state(state: &mut PartyState, impact_output: &str)
    requires
        old(state).wf(),
    ensures
        final(state).wf(),
        final(state).view() == impact_lines(old(state).view(), lines(impact_output@)),
{
    let text = crate::text::to_chars(impact_output);
    let ls = lines_chars(&text);
    let ghost all = deep(ls@);
    let ghost m0 = state.view();
    let mut i: usize = 0;
    assert(all.take(0) =~= Seq::<Seq<char>>::empty());
    while i < ls.len()
        invariant
            i <= ls.len(),
            all == deep(ls@),
            state.wf(),
            state.view() == impact_lines(m0, all.take(i as int)),
        decreases ls.len() - i,
    {
        let ghost before = state.view();
        assert(all.take(i + 1).drop_last() =~= all.take(i as int));
        assert(all.take(i + 1).last() == ls@[i as int]@);
        let l = trim_chars(&ls[i]);
        if l.len() == 0 || chars_eq_str(&l, "NO_CHANGE") {
            i += 1;
            continue;
        }
        let parts = splitn_chars(&l, '|', 3);
        if parts.len() < 3 {
            i += 1;
            continue;
        }
        let field = trim_chars(&parts[0]);
        let name_chars = trim_chars(&parts[1]);
        let value = trim_chars(&parts[2]);
        let name = string_of(&name_chars);
        let idx = state.entry_index(name.as_str());
        let next = update_for(&state.entries[idx].state, &field, &value);
        proof {
            let m1 = state.view();
            lemma_lookup_at(state.pairs(), idx as int);
            assert(state.pairs()[idx as int] == entry_pair(state.entries@[idx as int]));
            assert(m1[name@] == state.entries@[idx as int].state@);
            if before.contains_key(name@) {
                assert(m1[name@] == before[name@]);
            } else {
                assert(m1[name@] == fresh_state());
            }
        }
        state.set_state(idx, next);
        proof {
            assert(state.view() =~= before.insert(name@, impact_update(
                if before.contains_key(name@) { before[name@] } else { fresh_state() }, field@, value@)));
        }
        i += 1;
    }
    assert(all.take(ls.len() as int) =~= all);
}

// ─────────────────────────────── rendering ─────────────────────────────────

pub open spec fn conditions_cell(conds: Seq<Seq<char>>) -> Seq<char> {
    if conds.len() == 0 { "—"@ } else { join(conds, ", "@) }
}

/// `| {name} | {dread} | {cdp} | {conditions} |`.
pub open spec fn party_row(p: (Seq<char>, CharStateView)) -> Seq<char> {
    "| "@ + p.0 + " | "@ + decimal(p.1.dread as nat) + " | "@ + decimal(p.1.cdp as nat) + " | "@
        + conditions_cell(p.1.conditions) + " |"@
}

pub open spec fn party_table(rows: Seq<(Seq<char>, CharStateView)>) -> Seq<char> {
    join(
        seq!["| Character | Dread | CDP | Conditions |"@, "|-----------|-------|-----|------------|"@]
            + rows.map_values(|p: (Seq<char>, CharStateView)| party_row(p)),
        "\n"@,
    )
}

fn party_row_text(e: &PartyEntry) -> (r: String)
    ensures
        r@ == party_row(entry_pair(*e)),
{
    let mut r = String::new();
    push_str(&mut r, "| ");
    push_str(&mut r, e.name.as_str());
    push_str(&mut r, " | ");
    let d = decimal_chars(e.state.dread as u64);
    push_chars(&mut r, &d);
    push_str(&mut r, " | ");
    let c = decimal_chars(e.state.cdp as u64);
    push_chars(&mut r, &c);
    push_str(&mut r, " | ");
    if e.state.conditions.len() == 0 {
        push_str(&mut r, "—");
    } else {
        let j = join_strings(&e.state.conditions, ", ");
        push_str(&mut r, j.as_str());
    }
    push_str(&mut r, " |");
    assert(r@ =~= party_row(entry_pair(*e)));
    r
}

/// Render a compact markdown table of the party for model context: a header
/// and one row per character in increasing name order.
pub fn render_party_state_md(state: &PartyState) -> (r: String)
    ensures
        r@ == party_table(state.rows()),
{
    let mut rows: Vec<String> = Vec::new();
    let h1 = owned("| Character | Dread | CDP | Conditions |");
    let h2 = owned("|-----------|-------|-----|------------|");
    rows.push(h1);
    rows.push(h2);
    let ghost f = |p: (Seq<char>, CharStateView)| party_row(p);
    let ghost hs = seq!["| Character | Dread | CDP | Conditions |"@, "|-----------|-------|-----|------------|"@];
    assert(views(rows@) =~= hs);
    let es = state.entries();
    let mut i: usize = 0;
    while i < es.len()
        invariant
            i <= es.len(),
            f == (|p: (Seq<char>, CharStateView)| party_row(p)),
            es@.map_values(|e: PartyEntry| entry_pair(e)) == state.rows(),
            views(rows@) == hs + state.rows().take(i as int).map_values(f),
        decreases es.len() - i,
    {
        let row = party_row_text(&es[i]);
        proof {
            lemma_views_push(rows@, row);
            lemma_map_take_step(state.rows(), f, i as int);
            assert(state.rows()[i as int] == entry_pair(es@[i as int]));
        }
        rows.push(row);
        assert(views(rows@) =~= hs + state.rows().take(i + 1).map_values(f));
        i += 1;
    }
    assert(state.rows().take(es.len() as int) =~= state.rows());
    join_strings(&rows, "\n")
}


/// The tracked state of a name, or the fresh state when it is not tracked.
pub open spec fn state_or_fresh(m: Map<Seq<char>, CharStateView>, name: Seq<char>) -> CharStateView {
    if m.contains_key(name) { m[name] } else { fresh_state() }
}

impl PartyState {
    /// Applies rule effects to a character, tracking it first when new
    /// (`entry(name).or_insert(..)` followed by `apply_effects`).
    pub fn apply_effects_for(&mut self, name: &str, effects: &[String])
        requires
            old(self).wf(),
        ensures
            final(self).wf(),
            final(self).view() == old(self).view().insert(
                name@, apply_effect_list(state_or_fresh(old(self).view(), name@), views(effects@))),
    {
        let ghost before = self.view();
        let idx = self.entry_index(name);
        let mut cur = self.entries[idx].state.duplicate();
        proof {
            lemma_lookup_at(self.pairs(), idx as int);
            assert(self.pairs()[idx as int] == entry_pair(self.entries@[idx as int]));
            assert(self.view().contains_key(name@));
            assert(self.view()[name@] == cur@);
            if before.contains_key(name@) {
                assert(self.view() == before);
            } else {
                assert(self.view() == before.insert(name@, fresh_state()));
            }
            assert(cur@ == state_or_fresh(before, name@));
        }
        apply_effects(&mut cur, effects);
        self.set_state(idx, cur);
        assert(self.view() =~= before.insert(
            name@, apply_effect_list(state_or_fresh(before, name@), views(effects@))));
    }
}

} // verus!
