//! Dice notation (`XdY+Z`, `XdY-Z`, `dY`) and dice rolls.
use vstd::prelude::*;

use rand::Rng;

use crate::error::ToolError;
use crate::text::{
    ascii_lower, copy_chars, find, find_char, lemma_rfind, lower_ascii, parse_i32, parse_i32_chars,
    parse_u32, parse_u32_chars, rfind, rfind_char, sub_chars, to_chars, trim, trim_chars,
    decimals, int_text, join, owned, push_int, push_joined_u32, push_str, signed_suffix, decimal,
};

verus! {

/// The notation after trimming, ASCII lowercasing and removing spaces.
pub open spec fn normalize(s: Seq<char>) -> Seq<char>
    decreases s.len(),
{
    if s.len() == 0 {
        Seq::empty()
    } else {
        let p = normalize(s.drop_last());
        let c = ascii_lower(s.last());
        if c == ' ' {
            p
        } else {
            p.push(c)
        }
    }
}

/// Splits the part after `d` into the sides text and the modifier: at the
/// last `+` if there is one, else at the last `-` (negated), else no modifier.
pub open spec fn split_modifier(rest: Seq<char>) -> Option<(Seq<char>, i32)> {
    match rfind(rest, '+') {
        Some(q) => match parse_i32(rest.skip(q + 1)) {
            Some(m) => Some((rest.take(q), m)),
            None => None,
        },
        None => match rfind(rest, '-') {
            Some(q) => match parse_i32(rest.skip(q + 1)) {
                Some(m) => Some((rest.take(q), (-(m as int)) as i32)),
                None => None,
            },
            None => Some((rest, 0i32)),
        },
    }
}

/// `(count, sides, modifier)` read from the normalized notation `t`, with
/// 1 ≤ count ≤ 100 (an empty count meaning 1) and 2 ≤ sides ≤ 1000.
pub open spec fn notation_of(t: Seq<char>) -> Option<(u32, u32, i32)> {
    match find(t, 'd') {
        None => None,
        Some(p) => {
            let count_text = t.take(p);
            let count = if count_text.len() == 0 { Some(1u32) } else { parse_u32(count_text) };
            match count {
                None => None,
                Some(n) => if n == 0 || n > 100 {
                    None
                } else {
                    match split_modifier(t.skip(p + 1)) {
                        None => None,
                        Some((sides_text, m)) => match parse_u32(sides_text) {
                            None => None,
                            Some(sides) => if sides < 2 || sides > 1000 {
                                None
                            } else {
                                Some((n, sides, m))
                            },
                        },
                    }
                },
            }
        },
    }
}

/// What `parse_notation` returns for a notation string.
pub open spec fn spec_parse_notation(s: Seq<char>) -> Option<(u32, u32, i32)> {
    notation_of(normalize(trim(s)))
}

fn normalize_chars(v: &Vec<char>) -> (r: Vec<char>)
    ensures
        r@ == normalize(v@),
{
    let mut r: Vec<char> = Vec::new();
    let mut i: usize = 0;
    assert(v@.take(0) =~= Seq::<char>::empty());
    while i < v.len()
        invariant
            i <= v.len(),
            r@ == normalize(v@.take(i as int)),
        decreases v.len() - i,
    {
        assert(v@.take(i + 1).drop_last() =~= v@.take(i as int));
        let c = lower_ascii(v[i]);
        if c != ' ' {
            r.push(c);
        }
        i += 1;
    }
    assert(v@.take(v.len() as int) =~= v@);
    r
}

proof fn lemma_no_minus_nonneg(t: Seq<char>)
    requires
        forall|k: int| 0 <= k < t.len() ==> t[k] != '-',
        parse_i32(t) is Some,
    ensures
        parse_i32(t)->0 >= 0,
{
}

fn split_modifier_chars(rest: &Vec<char>) -> (r: Option<(Vec<char>, i32)>)
    ensures
        match r {
            Some((a, m)) => split_modifier(rest@) == Some((a@, m)),
            None => split_modifier(rest@) is None,
        },
{
    match rfind_char(rest, '+') {
        Some(q) => {
            let tail = sub_chars(rest, q + 1, rest.len());
            assert(tail@ =~= rest@.skip(q + 1));
            match parse_i32_chars(&tail) {
                Some(m) => {
                    let head = sub_chars(rest, 0, q);
                    assert(head@ =~= rest@.take(q as int));
                    Some((head, m))
                },
                None => None,
            }
        },
        None => match rfind_char(rest, '-') {
            Some(q) => {
                let tail = sub_chars(rest, q + 1, rest.len());
                assert(tail@ =~= rest@.skip(q + 1));
                match parse_i32_chars(&tail) {
                    Some(m) => {
                        proof {
                            lemma_rfind(rest@, '-');
                            assert forall|k: int| 0 <= k < tail@.len() implies tail@[k] != '-' by {
                                assert(tail@[k] == rest@[q + 1 + k]);
                            }
                            lemma_no_minus_nonneg(tail@);
                        }
                        let head = sub_chars(rest, 0, q);
                        assert(head@ =~= rest@.take(q as int));
                        Some((head, -m))
                    },
                    None => None,
                }
            },
            None => {
                let whole = copy_chars(rest);
                Some((whole, 0))
            },
        },
    }
}

/// Parse `XdY+Z` / `XdY-Z` / `dY` notation into `(count, sides, modifier)`.
///
/// Surrounding whitespace and inner spaces are ignored and letters compared
/// without case; the count defaults to 1 and must lie in 1..=100, the sides
/// in 2..=1000.
pub fn parse_notation(notation: &str) -> (r: Option<(u32, u32, i32)>)
    ensures
        r == spec_parse_notation(notation@),
{
    let v = to_chars(notation);
    let trimmed = trim_chars(&v);
    let t = normalize_chars(&trimmed);
    let p = match find_char(&t, 'd') {
        Some(p) => p,
        None => return None,
    };
    let count_text = sub_chars(&t, 0, p);
    assert(count_text@ =~= t@.take(p as int));
    let count: u32 = if count_text.len() == 0 {
        1
    } else {
        match parse_u32_chars(&count_text) {
            Some(n) => n,
            None => return None,
        }
    };
    if count == 0 || count > 100 {
        return None;
    }
    let rest = sub_chars(&t, p + 1, t.len());
    assert(rest@ =~= t@.skip(p + 1));
    let (sides_text, modifier) = match split_modifier_chars(&rest) {
        Some(x) => x,
        None => return None,
    };
    let sides = match parse_u32_chars(&sides_text) {
        Some(s) => s,
        None => return None,
    };
    if sides < 2 || sides > 1000 {
        return None;
    }
    Some((count, sides, modifier))
}


/// One die in `1..=sides`, drawn with `rand::thread_rng().gen_range(1..=sides)`.
///
/// The value is random: only its range is stated. (`thread_rng` panics only
/// when the operating system's generator cannot be initialised, which no
/// argument can rule out.)
#[verifier::external_body]
fn roll_die(sides: u32) -> (r: u32)
    requires
        sides >= 1,
    ensures
        1 <= r <= sides,
{
    rand::thread_rng().gen_range(1..=sides)
}

pub open spec fn sum_rolls(s: Seq<u32>) -> int
    decreases s.len(),
{
    if s.len() == 0 {
        0
    } else {
        sum_rolls(s.drop_last()) + s.last() as int
    }
}

pub open spec fn rolls_in_range(s: Seq<u32>, sides: u32) -> bool {
    forall|i: int| 0 <= i < s.len() ==> 1 <= #[trigger] s[i] <= sides
}

proof fn lemma_sum_bound(s: Seq<u32>, sides: u32)
    requires
        rolls_in_range(s, sides),
    ensures
        0 <= sum_rolls(s) <= s.len() * (sides as int),
    decreases s.len(),
{
    if s.len() > 0 {
        let p = s.drop_last();
        assert(rolls_in_range(p, sides)) by {
            assert forall|i: int| 0 <= i < p.len() implies 1 <= #[trigger] p[i] <= sides by {
                assert(p[i] == s[i]);
            }
        }
        lemma_sum_bound(p, sides);
        assert(s.last() == s[s.len() - 1]);
        assert((p.len() + 1) * (sides as int) == p.len() * (sides as int) + sides as int)
            by (nonlinear_arith);
    }
}

/// `count` dice of `sides` sides, with their sum.
pub fn roll_dice(count: u32, sides: u32) -> (r: (Vec<u32>, u32))
    requires
        1 <= sides <= 1000,
        count <= 100,
    ensures
        r.0.len() == count,
        rolls_in_range(r.0@, sides),
        r.1 as int == sum_rolls(r.0@),
{
    let mut rolls: Vec<u32> = Vec::new();
    let mut sum: u32 = 0;
    let mut i: u32 = 0;
    while i < count
        invariant
            i <= count <= 100,
            1 <= sides <= 1000,
            rolls.len() == i,
            rolls_in_range(rolls@, sides),
            sum as int == sum_rolls(rolls@),
        decreases count - i,
    {
        let r = roll_die(sides);
        proof {
            lemma_sum_bound(rolls@, sides);
            assert(rolls.len() * (sides as int) <= 100 * 1000) by (nonlinear_arith)
                requires rolls.len() <= 100, sides <= 1000;
        }
        let ghost before = rolls@;
        rolls.push(r);
        assert(rolls@.drop_last() =~= before);
        sum = sum + r;
        i += 1;
    }
    (rolls, sum)
}

/// The outcome of rolling a notation.
pub struct DiceRoll {
    pub rolls: Vec<u32>,
    pub modifier: i32,
    pub total: i32,
    pub summary: String,
}

/// `"{notation} → [{rolls}]{modifier} = {total}"`, the modifier written
/// with its sign and left out when zero.
pub open spec fn roll_summary(notation: Seq<char>, rolls: Seq<u32>, modifier: int, total: int) -> Seq<char> {
    notation + " → ["@ + join(decimals(rolls), ", "@) + "]"@ + signed_suffix(modifier) + " = "@
        + int_text(total)
}

/// Appends `signed_suffix(n)`.
pub(crate) fn push_signed_suffix(s: &mut String, n: i32)
    ensures
        final(s)@ == old(s)@ + signed_suffix(n as int),
{
    if n > 0 {
        push_str(s, "+");
        proof {
            reveal_strlit("+");
        }
        push_int(s, n as i64);
        assert(int_text(n as int) == decimal(n as nat));
        assert(final(s)@ =~= old(s)@ + signed_suffix(n as int));
    } else if n < 0 {
        push_int(s, n as i64);
    } else {
        assert(signed_suffix(n as int) =~= Seq::<char>::empty());
        assert(s@ =~= s@ + signed_suffix(n as int));
    }
}

/// The summary line of a roll.
pub fn format_roll_summary(notation: &str, rolls: &Vec<u32>, modifier: i32, total: i32) -> (r: String)
    ensures
        r@ == roll_summary(notation@, rolls@, modifier as int, total as int),
{
    let mut s = String::new();
    push_str(&mut s, notation);
    push_str(&mut s, " → [");
    push_joined_u32(&mut s, rolls, ", ");
    push_str(&mut s, "]");
    push_signed_suffix(&mut s, modifier);
    push_str(&mut s, " = ");
    push_int(&mut s, total as i64);
    assert(s@ =~= roll_summary(notation@, rolls@, modifier as int, total as int));
    s
}

/// The message of the error for a notation that does not parse.
pub open spec fn unparsable_message(notation: Seq<char>) -> Seq<char> {
    "cannot parse dice notation: '"@ + notation + "'"@
}

/// Whether every outcome of the notation has a total that fits an `i32`
/// (the total is computed in `i32`, which overflows otherwise).
pub open spec fn total_fits(s: Seq<char>) -> bool {
    match spec_parse_notation(s) {
        Some((count, sides, modifier)) => count * sides + modifier <= i32::MAX,
        None => true,
    }
}

/// Whether every outcome of the notation can be totalled in an `i32`.
pub fn notation_total_fits(notation: &str) -> (r: bool)
    ensures
        r == total_fits(notation@),
{
    match parse_notation(notation) {
        None => true,
        Some((count, sides, modifier)) => {
            assert(count * sides <= 100 * 1000) by (nonlinear_arith)
                requires count <= 100, sides <= 1000;
            (count as i64) * (sides as i64) + (modifier as i64) <= i32::MAX as i64
        },
    }
}

/// Rolls inline: the dice of a notation and the total with its modifier, or
/// `None` when the notation does not parse.
pub fn roll_inline(notation: &str) -> (r: Option<(Vec<u32>, i32, i32)>)
    requires
        total_fits(notation@),
    ensures
        match spec_parse_notation(notation@) {
            None => r is None,
            Some((count, sides, modifier)) => match r {
                None => false,
                Some((rolls, m, total)) => {
                    &&& rolls.len() == count
                    &&& rolls_in_range(rolls@, sides)
                    &&& m == modifier
                    &&& total as int == sum_rolls(rolls@) + modifier as int
                },
            },
        },
{
    match parse_notation(notation) {
        None => None,
        Some((count, sides, modifier)) => {
            let (rolls, sum) = roll_dice(count, sides);
            proof {
                lemma_sum_bound(rolls@, sides);
                assert(rolls.len() * (sides as int) <= 100 * 1000) by (nonlinear_arith)
                    requires rolls.len() <= 100, sides <= 1000;
                assert(rolls.len() == count);
            }
            let total: i32 = (sum as i64 + modifier as i64) as i32;
            Some((rolls, modifier, total))
        },
    }
}

/// Tool that rolls dice from standard notation.
pub struct DiceRollTool;

impl DiceRollTool {
    /// Rolls the `notation` parameter. A missing parameter and a notation
    /// that does not parse are errors; otherwise every die lies in its range,
    /// the total is their sum plus the modifier and the summary describes it.
    pub fn roll(&self, notation: Option<&str>) -> (r: Result<DiceRoll, ToolError>)
        requires
            notation matches Some(n) ==> total_fits(n@),
        ensures
            match notation {
                None => r matches Err(ToolError::MissingParameter(m)) && m@ == "notation"@,
                Some(n) => match spec_parse_notation(n@) {
                    None => r matches Err(ToolError::InvalidParameter(m)) && m@ == unparsable_message(n@),
                    Some((count, sides, modifier)) => match r {
                        Err(_) => false,
                        Ok(d) => {
                            &&& d.rolls.len() == count
                            &&& rolls_in_range(d.rolls@, sides)
                            &&& d.modifier == modifier
                            &&& d.total as int == sum_rolls(d.rolls@) + modifier as int
                            &&& d.summary@ == roll_summary(n@, d.rolls@, modifier as int, d.total as int)
                        },
                    },
                },
            },
    {
        match notation {
            None => Err(ToolError::MissingParameter(owned("notation"))),
            Some(n) => match roll_inline(n) {
                None => {
                    let mut m = String::new();
                    push_str(&mut m, "cannot parse dice notation: '");
                    push_str(&mut m, n);
                    push_str(&mut m, "'");
                    Err(ToolError::InvalidParameter(m))
                },
                Some((rolls, modifier, total)) => {
                    let summary = format_roll_summary(n, &rolls, modifier, total);
                    Ok(DiceRoll { rolls, modifier, total, summary })
                },
            },
        }
    }
}

} // verus!
