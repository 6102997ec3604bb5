//! Laws of dice notation: letter case and spaces never change what a
//! notation reads as.
use vstd::prelude::*;

use crate::dice::{normalize, notation_of, split_modifier, spec_parse_notation};
use crate::text::{
    all_digits, ascii_lower, decimal, digit_val, digits_value, find, is_digit, is_ws, lemma_find, lemma_rfind,
    parse_i32, parse_signed, parse_u32, parse_unsigned, rfind, trim, trim_end, trim_start,
};

verus! {

/// `char::to_ascii_uppercase`.
pub open spec fn ascii_upper(c: char) -> char {
    if 'a' <= c && c <= 'z' {
        ((c as int) - 32) as char
    } else {
        c
    }
}

/// `str::to_ascii_uppercase`.
pub open spec fn upper(s: Seq<char>) -> Seq<char> {
    s.map_values(|c: char| ascii_upper(c))
}

/// The text with every space removed (`str::replace(' ', "")`).
pub open spec fn without_spaces(s: Seq<char>) -> Seq<char>
    decreases s.len(),
{
    if s.len() == 0 {
        Seq::empty()
    } else if s.last() == ' ' {
        without_spaces(s.drop_last())
    } else {
        without_spaces(s.drop_last()).push(s.last())
    }
}

proof fn lemma_upper_char(c: char)
    ensures
        is_ws(ascii_upper(c)) == is_ws(c),
        ascii_lower(ascii_upper(c)) == ascii_lower(c),
{
}

proof fn lemma_upper_drop_first(s: Seq<char>)
    requires
        s.len() > 0,
    ensures
        upper(s).drop_first() == upper(s.drop_first()),
        upper(s)[0] == ascii_upper(s[0]),
{
    assert(upper(s).drop_first() =~= upper(s.drop_first()));
}

proof fn lemma_upper_drop_last(s: Seq<char>)
    requires
        s.len() > 0,
    ensures
        upper(s).drop_last() == upper(s.drop_last()),
        upper(s).last() == ascii_upper(s.last()),
{
    assert(upper(s).drop_last() =~= upper(s.drop_last()));
}

proof fn lemma_trim_start_upper(s: Seq<char>)
    ensures
        trim_start(upper(s)) == upper(trim_start(s)),
    decreases s.len(),
{
    if s.len() > 0 {
        lemma_upper_drop_first(s);
        lemma_upper_char(s[0]);
        if is_ws(s[0]) {
            lemma_trim_start_upper(s.drop_first());
        }
    }
}

proof fn lemma_trim_end_upper(s: Seq<char>)
    ensures
        trim_end(upper(s)) == upper(trim_end(s)),
    decreases s.len(),
{
    if s.len() > 0 {
        lemma_upper_drop_last(s);
        lemma_upper_char(s.last());
        if is_ws(s.last()) {
            lemma_trim_end_upper(s.drop_last());
        }
    }
}

proof fn lemma_normalize_upper(s: Seq<char>)
    ensures
        normalize(upper(s)) == normalize(s),
    decreases s.len(),
{
    if s.len() > 0 {
        lemma_upper_drop_last(s);
        lemma_upper_char(s.last());
        lemma_normalize_upper(s.drop_last());
    }
}

/// Letter case never changes what a notation reads as.
pub proof fn law_notation_ignores_case(s: Seq<char>)
    ensures
        spec_parse_notation(upper(s)) == spec_parse_notation(s),
{
    lemma_trim_start_upper(s);
    lemma_trim_end_upper(trim_start(s));
    lemma_normalize_upper(trim(s));
}

proof fn lemma_without_spaces_concat(a: Seq<char>, b: Seq<char>)
    ensures
        without_spaces(a + b) == without_spaces(a) + without_spaces(b),
    decreases b.len(),
{
    if b.len() == 0 {
        assert(a + b =~= a);
        assert(without_spaces(a) + without_spaces(b) =~= without_spaces(a));
    } else {
        lemma_without_spaces_concat(a, b.drop_last());
        assert((a + b).drop_last() =~= a + b.drop_last());
        if b.last() != ' ' {
            assert(without_spaces(a) + without_spaces(b) =~= (without_spaces(a) + without_spaces(b.drop_last())).push(
                b.last(),
            ));
        }
    }
}

proof fn lemma_without_spaces_first(s: Seq<char>)
    requires
        s.len() > 0,
    ensures
        without_spaces(s) == if s[0] == ' ' {
            without_spaces(s.drop_first())
        } else {
            seq![s[0]] + without_spaces(s.drop_first())
        },
{
    assert(s =~= seq![s[0]] + s.drop_first());
    lemma_without_spaces_concat(seq![s[0]], s.drop_first());
    let one = seq![s[0]];
    assert(one.drop_last() =~= Seq::<char>::empty());
    assert(one.last() == s[0]);
    assert(without_spaces(one.drop_last()) == Seq::<char>::empty());
    if s[0] != ' ' {
        assert(without_spaces(seq![s[0]]) =~= seq![s[0]]);
    } else {
        assert(without_spaces(seq![s[0]]) =~= Seq::<char>::empty());
        assert(Seq::<char>::empty() + without_spaces(s.drop_first()) =~= without_spaces(s.drop_first()));
    }
}

proof fn lemma_trim_start_spaces(s: Seq<char>)
    ensures
        trim_start(without_spaces(s)) == without_spaces(trim_start(s)),
    decreases s.len(),
{
    if s.len() > 0 {
        lemma_without_spaces_first(s);
        if is_ws(s[0]) {
            lemma_trim_start_spaces(s.drop_first());
            if s[0] != ' ' {
                let w = seq![s[0]] + without_spaces(s.drop_first());
                assert(w.drop_first() =~= without_spaces(s.drop_first()));
            }
        } else {
            let w = seq![s[0]] + without_spaces(s.drop_first());
            assert(w[0] == s[0]);
        }
    }
}

proof fn lemma_trim_end_spaces(s: Seq<char>)
    ensures
        trim_end(without_spaces(s)) == without_spaces(trim_end(s)),
    decreases s.len(),
{
    if s.len() > 0 {
        if is_ws(s.last()) {
            lemma_trim_end_spaces(s.drop_last());
            if s.last() != ' ' {
                assert(without_spaces(s).drop_last() =~= without_spaces(s.drop_last()));
            }
        }
    }
}

proof fn lemma_normalize_spaces(s: Seq<char>)
    ensures
        normalize(without_spaces(s)) == normalize(s),
    decreases s.len(),
{
    if s.len() > 0 {
        lemma_normalize_spaces(s.drop_last());
        if s.last() != ' ' {
            assert(without_spaces(s).drop_last() =~= without_spaces(s.drop_last()));
        }
    }
}

/// Spaces never change what a notation reads as: removing them all gives
/// the same reading.
pub proof fn law_notation_ignores_spaces(s: Seq<char>)
    ensures
        spec_parse_notation(without_spaces(s)) == spec_parse_notation(s),
{
    lemma_trim_start_spaces(s);
    lemma_trim_end_spaces(trim_start(s));
    lemma_normalize_spaces(trim(s));
}


// ─────────────────────────────── formatted notations ───────────────────────

proof fn lemma_decimal(n: nat)
    ensures
        decimal(n).len() > 0,
        all_digits(decimal(n)),
        digits_value(decimal(n)) == n,
    decreases n,
{
    let d = decimal(n);
    if n < 10 {
        assert(d.len() == 1);
        assert(d.drop_last() =~= Seq::<char>::empty());
        assert(d[0] == ((n + '0' as nat) as char));
        assert(d.last() == d[0]);
        assert(digit_val(d.last()) == n);
        assert(digits_value(d.drop_last()) == 0);
        assert(digits_value(d) == digits_value(d.drop_last()) * 10 + digit_val(d.last()));
    } else {
        lemma_decimal(n / 10);
        assert(d.drop_last() =~= decimal(n / 10));
        assert(digit_val(d.last()) == n % 10);
        assert((n / 10) * 10 + n % 10 == n) by (nonlinear_arith);
        assert(digits_value(d) == digits_value(d.drop_last()) * 10 + digit_val(d.last()));
        assert(digits_value(d.drop_last()) == n / 10);
        assert forall|i: int| 0 <= i < d.len() implies #[trigger] is_digit(d[i]) by {
            if i < d.len() - 1 {
                assert(d[i] == decimal(n / 10)[i]);
            }
        }
    }
}

proof fn lemma_parse_decimal(n: nat)
    ensures
        n <= u32::MAX ==> parse_u32(decimal(n)) == Some(n as u32),
        n <= i32::MAX ==> parse_i32(decimal(n)) == Some(n as i32),
{
    lemma_decimal(n);
    let d = decimal(n);
    assert(is_digit(d[0]));
    assert(parse_unsigned(d) == Some(n));
    assert(parse_signed(d) == Some(n as int));
}

/// Digits and the letters and signs of a notation: not blank, not a space,
/// and unchanged by lowercasing.
pub open spec fn plain(c: char) -> bool {
    is_digit(c) || c == 'd' || c == '+' || c == '-'
}

proof fn lemma_normalize_plain(t: Seq<char>)
    requires
        forall|i: int| 0 <= i < t.len() ==> plain(#[trigger] t[i]),
    ensures
        normalize(t) == t,
    decreases t.len(),
{
    if t.len() > 0 {
        lemma_normalize_plain(t.drop_last());
        assert(plain(t[t.len() - 1]));
        assert(t.drop_last().push(t.last()) =~= t);
    }
}

proof fn lemma_trim_plain(t: Seq<char>)
    requires
        t.len() > 0,
        plain(t[0]),
        plain(t.last()),
    ensures
        trim(t) == t,
{
    assert(trim_start(t) == t);
    assert(trim_end(t) == t);
}

proof fn lemma_find_at(t: Seq<char>, c: char, i: int)
    requires
        0 <= i < t.len(),
        t[i] == c,
        forall|k: int| 0 <= k < i ==> t[k] != c,
    ensures
        find(t, c) == Some(i),
{
    lemma_find(t, c);
}

proof fn lemma_rfind_at(t: Seq<char>, c: char, i: int)
    requires
        0 <= i < t.len(),
        t[i] == c,
        forall|k: int| i < k < t.len() ==> t[k] != c,
    ensures
        rfind(t, c) == Some(i),
{
    lemma_rfind(t, c);
}

proof fn lemma_rfind_none(t: Seq<char>, c: char)
    requires
        forall|k: int| 0 <= k < t.len() ==> t[k] != c,
    ensures
        rfind(t, c) is None,
{
    lemma_rfind(t, c);
}

/// The modifier part of a notation: nothing (`sign == 0`), `+{mag}`
/// (`sign > 0`) or `-{mag}` (`sign < 0`); an explicit `+0` or `-0` is
/// allowed.
pub open spec fn modifier_text(sign: int, mag: nat) -> Seq<char> {
    if sign > 0 {
        seq!['+'] + decimal(mag)
    } else if sign < 0 {
        seq!['-'] + decimal(mag)
    } else {
        Seq::empty()
    }
}

/// The value a written modifier stands for.
pub open spec fn modifier_value(sign: int, mag: nat) -> int {
    if sign < 0 { -mag } else { mag as int }
}

/// A notation as a program would format it: `{count}d{sides}` with the
/// modifier, the count left out when `omit_count`.
pub open spec fn formatted(count: nat, sides: nat, sign: int, mag: nat, omit_count: bool) -> Seq<char> {
    (if omit_count { Seq::empty() } else { decimal(count) }) + seq!['d'] + decimal(sides) + modifier_text(sign, mag)
}

proof fn lemma_split_formatted(sides: nat, sign: int, mag: nat)
    requires
        2 <= sides <= 1000,
        mag <= i32::MAX,
        sign == 0 ==> mag == 0,
    ensures
        split_modifier(decimal(sides) + modifier_text(sign, mag)) == Some((decimal(sides), modifier_value(sign, mag) as i32)),
{
    lemma_decimal(sides);
    let b = decimal(sides);
    let r = b + modifier_text(sign, mag);
    if sign > 0 {
        let e = decimal(mag);
        lemma_decimal(mag);
        lemma_parse_decimal(mag);
        assert(r[b.len() as int] == '+');
        assert forall|k: int| b.len() < k < r.len() implies r[k] != '+' by {
            assert(r[k] == e[k - b.len() - 1]);
            assert(is_digit(e[k - b.len() - 1]));
        }
        lemma_rfind_at(r, '+', b.len() as int);
        assert(r.skip(b.len() as int + 1) =~= e);
        assert(r.take(b.len() as int) =~= b);
    } else if sign < 0 {
        let e = decimal(mag);
        lemma_decimal(mag);
        lemma_parse_decimal(mag);
        assert forall|k: int| 0 <= k < r.len() implies r[k] != '+' by {
            if k < b.len() {
                assert(r[k] == b[k] && is_digit(b[k]));
            } else if k > b.len() {
                assert(r[k] == e[k - b.len() - 1] && is_digit(e[k - b.len() - 1]));
            }
        }
        lemma_rfind_none(r, '+');
        assert(r[b.len() as int] == '-');
        assert forall|k: int| b.len() < k < r.len() implies r[k] != '-' by {
            assert(r[k] == e[k - b.len() - 1]);
            assert(is_digit(e[k - b.len() - 1]));
        }
        lemma_rfind_at(r, '-', b.len() as int);
        assert(r.skip(b.len() as int + 1) =~= e);
        assert(r.take(b.len() as int) =~= b);
    } else {
        assert(r =~= b);
        assert forall|k: int| 0 <= k < r.len() implies r[k] != '+' && r[k] != '-' by {
            assert(is_digit(b[k]));
        }
        lemma_rfind_none(r, '+');
        lemma_rfind_none(r, '-');
    }
}

/// A formatted notation reads back as its parts: `{c}d{s}`, `{c}d{s}+{m}`
/// and `{c}d{s}-{m}` (an explicit `+0` or `-0` included) give `(c, s, ±m)`,
/// and without the count they give `(1, s, ±m)`.
pub proof fn law_formatted_notation_reads_back(count: nat, sides: nat, sign: int, mag: nat, omit_count: bool)
    requires
        1 <= count <= 100,
        2 <= sides <= 1000,
        mag <= i32::MAX,
        sign == 0 ==> mag == 0,
    ensures
        spec_parse_notation(formatted(count, sides, sign, mag, omit_count)) == Some((
            if omit_count { 1u32 } else { count as u32 },
            sides as u32,
            modifier_value(sign, mag) as i32,
        )),
{
    let a: Seq<char> = if omit_count { Seq::empty() } else { decimal(count) };
    let b = decimal(sides);
    let mt = modifier_text(sign, mag);
    let t = formatted(count, sides, sign, mag, omit_count);
    lemma_decimal(count);
    lemma_decimal(sides);
    lemma_parse_decimal(count);
    lemma_parse_decimal(sides);
    lemma_decimal(mag);
    assert(t =~= a + seq!['d'] + (b + mt));
    assert forall|k: int| 0 <= k < mt.len() implies plain(#[trigger] mt[k]) by {
        if k > 0 {
            assert(mt[k] == decimal(mag)[k - 1]);
            assert(is_digit(decimal(mag)[k - 1]));
        }
    }
    assert forall|k: int| 0 <= k < t.len() implies plain(#[trigger] t[k]) by {
        if k < a.len() {
            assert(t[k] == a[k]);
            assert(is_digit(decimal(count)[k]));
        } else if k == a.len() {
        } else if k < a.len() + 1 + b.len() {
            assert(t[k] == b[k - a.len() - 1]);
            assert(is_digit(b[k - a.len() - 1]));
        } else {
            assert(t[k] == mt[k - a.len() - 1 - b.len()]);
        }
    }
    assert(plain(t[0]));
    assert(plain(t[t.len() - 1]));
    lemma_trim_plain(t);
    lemma_normalize_plain(t);
    assert(t[a.len() as int] == 'd');
    assert forall|k: int| 0 <= k < a.len() implies t[k] != 'd' by {
        assert(t[k] == a[k]);
        assert(is_digit(decimal(count)[k]));
    }
    lemma_find_at(t, 'd', a.len() as int);
    assert(t.take(a.len() as int) =~= a);
    assert(t.skip(a.len() as int + 1) =~= b + mt);
    lemma_split_formatted(sides, sign, mag);
}

} // verus!
