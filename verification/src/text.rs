//! Character-level text primitives with exact specifications.
//!
//! Strings are modelled by their view, a `Seq<char>`. Every executable
//! helper here states its result over that view, so the modules that format
//! and parse the pipeline's text can be specified in the same terms.
use vstd::prelude::*;

verus! {

// ───────────────────────────── specifications ─────────────────────────────

/// The Unicode `White_Space` property, which `char::is_whitespace` reports.
pub open spec fn is_ws(c: char) -> bool {
    ||| ('\u{9}' <= c && c <= '\u{d}')
    ||| c == ' '
    ||| c == '\u{85}'
    ||| c == '\u{a0}'
    ||| c == '\u{1680}'
    ||| ('\u{2000}' <= c && c <= '\u{200a}')
    ||| c == '\u{2028}'
    ||| c == '\u{2029}'
    ||| c == '\u{202f}'
    ||| c == '\u{205f}'
    ||| c == '\u{3000}'
}

/// Leading whitespace removed.
pub open spec fn trim_start(s: Seq<char>) -> Seq<char>
    decreases s.len(),
{
    if s.len() > 0 && is_ws(s[0]) {
        trim_start(s.drop_first())
    } else {
        s
    }
}

/// Trailing whitespace removed.
pub open spec fn trim_end(s: Seq<char>) -> Seq<char>
    decreases s.len(),
{
    if s.len() > 0 && is_ws(s.last()) {
        trim_end(s.drop_last())
    } else {
        s
    }
}

/// What `str::trim` returns.
pub open spec fn trim(s: Seq<char>) -> Seq<char> {
    trim_end(trim_start(s))
}

pub open spec fn is_digit(c: char) -> bool {
    '0' <= c && c <= '9'
}

pub open spec fn digit_val(c: char) -> nat {
    (c as int - '0' as int) as nat
}

pub open spec fn all_digits(s: Seq<char>) -> bool {
    forall|i: int| 0 <= i < s.len() ==> #[trigger] is_digit(s[i])
}

/// Value of a run of decimal digits, read left to right.
pub open spec fn digits_value(s: Seq<char>) -> nat
    decreases s.len(),
{
    if s.len() == 0 {
        0
    } else {
        digits_value(s.drop_last()) * 10 + digit_val(s.last())
    }
}

/// What `str::parse` for an unsigned integer type reads before its range
/// check: an optional `+`, then one or more ASCII digits.
pub open spec fn parse_unsigned(s: Seq<char>) -> Option<nat> {
    let t = if s.len() > 0 && s[0] == '+' { s.drop_first() } else { s };
    if t.len() > 0 && all_digits(t) {
        Some(digits_value(t))
    } else {
        None
    }
}

/// What `str::parse` for a signed integer type reads before its range check:
/// an optional `+` or `-`, then one or more ASCII digits.
pub open spec fn parse_signed(s: Seq<char>) -> Option<int> {
    if s.len() > 0 && s[0] == '-' {
        let t = s.drop_first();
        if t.len() > 0 && all_digits(t) {
            Some(-(digits_value(t) as int))
        } else {
            None
        }
    } else {
        match parse_unsigned(s) {
            Some(v) => Some(v as int),
            None => None,
        }
    }
}

/// `s.parse::<u8>().ok()`.
pub open spec fn parse_u8(s: Seq<char>) -> Option<u8> {
    match parse_unsigned(s) {
        Some(v) => if v <= u8::MAX { Some(v as u8) } else { None },
        None => None,
    }
}

/// `s.parse::<u32>().ok()`.
pub open spec fn parse_u32(s: Seq<char>) -> Option<u32> {
    match parse_unsigned(s) {
        Some(v) => if v <= u32::MAX { Some(v as u32) } else { None },
        None => None,
    }
}

/// `s.parse::<i32>().ok()`.
pub open spec fn parse_i32(s: Seq<char>) -> Option<i32> {
    match parse_signed(s) {
        Some(v) => if i32::MIN <= v && v <= i32::MAX { Some(v as i32) } else { None },
        None => None,
    }
}

/// Decimal digits of a natural number, without sign or leading zeros.
pub open spec fn decimal(n: nat) -> Seq<char>
    decreases n,
{
    if n < 10 {
        seq![(n + '0' as nat) as char]
    } else {
        decimal(n / 10).push(((n % 10) + '0' as nat) as char)
    }
}

/// How `Display` writes an integer.
pub open spec fn int_text(n: int) -> Seq<char> {
    if n < 0 {
        seq!['-'] + decimal((-n) as nat)
    } else {
        decimal(n as nat)
    }
}

/// An integer with an explicit sign when positive: `+3`, `-1`, or nothing for zero.
pub open spec fn signed_suffix(n: int) -> Seq<char> {
    if n > 0 {
        seq!['+'] + decimal(n as nat)
    } else if n < 0 {
        int_text(n)
    } else {
        Seq::empty()
    }
}

pub open spec fn ascii_lower(c: char) -> char {
    if 'A' <= c && c <= 'Z' {
        ((c as int) + 32) as char
    } else {
        c
    }
}

/// `str::eq_ignore_ascii_case`.
pub open spec fn eq_ignore_ascii_case(a: Seq<char>, b: Seq<char>) -> bool {
    a.len() == b.len() && forall|i: int|
        0 <= i < a.len() ==> #[trigger] ascii_lower(a[i]) == ascii_lower(b[i])
}

pub open spec fn starts_with(s: Seq<char>, p: Seq<char>) -> bool {
    p.len() <= s.len() && s.subrange(0, p.len() as int) == p
}

pub open spec fn ends_with(s: Seq<char>, p: Seq<char>) -> bool {
    p.len() <= s.len() && s.subrange(s.len() - p.len(), s.len() as int) == p
}

pub open spec fn occurs_at(s: Seq<char>, p: Seq<char>, i: int) -> bool {
    0 <= i && i + p.len() <= s.len() && s.subrange(i, i + p.len()) == p
}

/// `str::contains` with a string pattern.
pub open spec fn contains(s: Seq<char>, p: Seq<char>) -> bool {
    exists|i: int| occurs_at(s, p, i)
}

/// `str::split` on one character: the pieces between occurrences of `c`.
pub open spec fn split(s: Seq<char>, c: char) -> Seq<Seq<char>>
    decreases s.len(),
{
    if s.len() == 0 {
        seq![Seq::<char>::empty()]
    } else {
        let p = split(s.drop_last(), c);
        if s.last() == c {
            p.push(Seq::<char>::empty())
        } else {
            p.update(p.len() - 1, p.last().push(s.last()))
        }
    }
}

/// Pieces joined with a separator between consecutive pieces.
pub open spec fn join(pieces: Seq<Seq<char>>, sep: Seq<char>) -> Seq<char>
    decreases pieces.len(),
{
    if pieces.len() == 0 {
        Seq::empty()
    } else if pieces.len() == 1 {
        pieces[0]
    } else {
        join(pieces.drop_last(), sep) + sep + pieces.last()
    }
}

/// `str::splitn(n, c)`: at most `n` pieces, the last one holding the rest.
pub open spec fn splitn(s: Seq<char>, c: char, n: nat) -> Seq<Seq<char>> {
    let p = split(s, c);
    if p.len() <= n {
        p
    } else {
        p.take(n - 1).push(join(p.skip(n - 1), seq![c]))
    }
}

pub open spec fn strip_cr(s: Seq<char>) -> Seq<char> {
    if s.len() > 0 && s.last() == '\r' {
        s.drop_last()
    } else {
        s
    }
}

/// `str::lines`: pieces ended by `\n` (a `\r` before that `\n` dropped);
/// no trailing empty line after a final `\n`, and none at all for "".
pub open spec fn lines(s: Seq<char>) -> Seq<Seq<char>> {
    if s.len() == 0 {
        Seq::empty()
    } else {
        let p = split(s, '\n');
        if s.last() == '\n' {
            p.drop_last().map_values(|l: Seq<char>| strip_cr(l))
        } else {
            p.drop_last().map_values(|l: Seq<char>| strip_cr(l)).push(p.last())
        }
    }
}

// ───────────────────────────── executable ─────────────────────────────────

/// Appends one character to a `String` (`String::push`).
#[verifier::external_body]
pub(crate) fn push_char(s: &mut String, c: char)
    ensures
        final(s)@ == old(s)@.push(c),
{
    s.push(c);
}

/// Appends a string slice.
pub fn push_str(s: &mut String, t: &str)
    ensures
        final(s)@ == old(s)@ + t@,
{
    let v = to_chars(t);
    push_chars(s, &v);
}

/// Appends the characters of `v`.
pub fn push_chars(s: &mut String, v: &Vec<char>)
    ensures
        final(s)@ == old(s)@ + v@,
{
    let ghost s0 = s@;
    let mut i: usize = 0;
    while i < v.len()
        invariant
            i <= v.len(),
            s@ == s0 + v@.take(i as int),
        decreases v.len() - i,
    {
        push_char(s, v[i]);
        i += 1;
        assert(v@.take(i as int) == v@.take((i - 1) as int).push(v@[i - 1]));
    }
    assert(v@.take(v.len() as int) == v@);
}

/// A fresh string holding the characters of `v`.
pub fn string_of(v: &Vec<char>) -> (s: String)
    ensures
        s@ == v@,
{
    let mut s = String::new();
    push_chars(&mut s, v);
    s
}

/// The characters of a string slice, in order.
pub fn to_chars(s: &str) -> (v: Vec<char>)
    ensures
        v@ == s@,
{
    let mut v: Vec<char> = Vec::new();
    for c in it: s.chars()
        invariant
            v@ == it.seq().take(it.index() as int),
            it.seq() == s@,
    {
        v.push(c);
    }
    v
}

/// An owned copy of a string slice.
pub fn owned(s: &str) -> (r: String)
    ensures
        r@ == s@,
{
    let v = to_chars(s);
    string_of(&v)
}

/// A copy of a string.
pub fn copy_string(s: &String) -> (r: String)
    ensures
        r@ == s@,
{
    let v = to_chars(s.as_str());
    string_of(&v)
}

/// Sequence equality of two character vectors.
pub fn chars_eq(a: &Vec<char>, b: &Vec<char>) -> (r: bool)
    ensures
        r == (a@ == b@),
{
    if a.len() != b.len() {
        return false;
    }
    let mut i: usize = 0;
    while i < a.len()
        invariant
            a.len() == b.len(),
            i <= a.len(),
            forall|j: int| 0 <= j < i ==> a@[j] == b@[j],
        decreases a.len() - i,
    {
        if a[i] != b[i] {
            return false;
        }
        i += 1;
    }
    assert(a@ =~= b@);
    true
}

/// `a == b` for string slices.
pub fn str_eq(a: &str, b: &str) -> (r: bool)
    ensures
        r == (a@ == b@),
{
    let va = to_chars(a);
    let vb = to_chars(b);
    chars_eq(&va, &vb)
}

pub fn lower_ascii(c: char) -> (r: char)
    ensures
        r == ascii_lower(c),
{
    if 'A' <= c && c <= 'Z' {
        let u: u32 = c as u32;
        let l: u32 = u + 32;
        proof {
            assert(0x61 <= l <= 0x7a);
        }
        (l as u8) as char
    } else {
        c
    }
}

/// `a.eq_ignore_ascii_case(b)` over character vectors.
pub fn chars_eq_ignore_ascii_case(a: &Vec<char>, b: &Vec<char>) -> (r: bool)
    ensures
        r == eq_ignore_ascii_case(a@, b@),
{
    if a.len() != b.len() {
        return false;
    }
    let mut i: usize = 0;
    while i < a.len()
        invariant
            a.len() == b.len(),
            i <= a.len(),
            forall|j: int| 0 <= j < i ==> #[trigger] ascii_lower(a@[j]) == ascii_lower(b@[j]),
        decreases a.len() - i,
    {
        if lower_ascii(a[i]) != lower_ascii(b[i]) {
            return false;
        }
        i += 1;
    }
    true
}

/// `a.eq_ignore_ascii_case(b)` for string slices.
pub fn str_eq_ignore_ascii_case(a: &str, b: &str) -> (r: bool)
    ensures
        r == eq_ignore_ascii_case(a@, b@),
{
    let va = to_chars(a);
    let vb = to_chars(b);
    chars_eq_ignore_ascii_case(&va, &vb)
}

pub fn is_ws_char(c: char) -> (r: bool)
    ensures
        r == is_ws(c),
{
    ('\u{9}' <= c && c <= '\u{d}') || c == ' ' || c == '\u{85}' || c == '\u{a0}'
        || c == '\u{1680}' || ('\u{2000}' <= c && c <= '\u{200a}') || c == '\u{2028}'
        || c == '\u{2029}' || c == '\u{202f}' || c == '\u{205f}' || c == '\u{3000}'
}


/// What `str::to_lowercase` returns for a text: a function of the text alone.
pub uninterp spec fn lowercase_of(s: Seq<char>) -> Seq<char>;

/// `str::to_lowercase`, whose result is `lowercase_of` of the text.
#[verifier::external_body]
pub(crate) fn lowercase(s: &str) -> (r: String)
    ensures
        r@ == lowercase_of(s@),
{
    s.to_lowercase()
}

// ─────────────────────────────── trimming ──────────────────────────────────

proof fn lemma_trim_start_step(s: Seq<char>, i: int)
    requires
        0 <= i < s.len(),
        is_ws(s[i]),
    ensures
        trim_start(s.subrange(i, s.len() as int)) == trim_start(s.subrange(i + 1, s.len() as int)),
{
    let t = s.subrange(i, s.len() as int);
    assert(t.drop_first() =~= s.subrange(i + 1, s.len() as int));
}

proof fn lemma_trim_start_len(s: Seq<char>)
    ensures
        trim_start(s).len() <= s.len(),
    decreases s.len(),
{
    if s.len() > 0 && is_ws(s[0]) {
        lemma_trim_start_len(s.drop_first());
    }
}

proof fn lemma_trim_end_len(s: Seq<char>)
    ensures
        trim_end(s).len() <= s.len(),
    decreases s.len(),
{
    if s.len() > 0 && is_ws(s.last()) {
        lemma_trim_end_len(s.drop_last());
    }
}

proof fn lemma_trim_start_idem(s: Seq<char>)
    ensures
        trim_start(trim_start(s)) == trim_start(s),
        trim_start(s).len() > 0 ==> !is_ws(trim_start(s)[0]),
    decreases s.len(),
{
    if s.len() > 0 && is_ws(s[0]) {
        lemma_trim_start_idem(s.drop_first());
    }
}

proof fn lemma_trim_end_idem(s: Seq<char>)
    ensures
        trim_end(trim_end(s)) == trim_end(s),
        trim_end(s).len() > 0 ==> !is_ws(trim_end(s).last()),
    decreases s.len(),
{
    if s.len() > 0 && is_ws(s.last()) {
        lemma_trim_end_idem(s.drop_last());
    }
}

/// Trailing whitespace removal keeps a non-blank first character in place.
proof fn lemma_trim_end_keeps_start(s: Seq<char>)
    requires
        s.len() > 0,
        !is_ws(s[0]),
    ensures
        trim_end(s).len() > 0,
        trim_end(s)[0] == s[0],
        trim_start(trim_end(s)) == trim_end(s),
    decreases s.len(),
{
    if is_ws(s.last()) {
        if s.len() > 1 {
            lemma_trim_end_keeps_start(s.drop_last());
        }
    }
}

/// Trimming twice is trimming once.
pub proof fn lemma_trim_idempotent(s: Seq<char>)
    ensures
        trim(trim(s)) == trim(s),
{
    lemma_trim_start_idem(s);
    lemma_trim_end_idem(trim_start(s));
    let a = trim_start(s);
    if trim_end(a).len() > 0 {
        lemma_trim_end_keeps_start(a);
    } else {
        assert(trim_start(trim_end(a)) == trim_end(a));
    }
}

/// A text that trimming leaves alone starts and ends with a non-blank character.
pub proof fn lemma_trimmed_ends(s: Seq<char>)
    requires
        trim(s) == s,
        s.len() > 0,
    ensures
        !is_ws(s[0]),
        !is_ws(s.last()),
{
    if is_ws(s[0]) {
        lemma_trim_start_len(s.drop_first());
        lemma_trim_end_len(trim_start(s));
    } else {
        assert(trim_start(s) == s);
        if is_ws(s.last()) {
            lemma_trim_end_len(s.drop_last());
        }
    }
}

/// Bounds `(a, b)` such that `trim(v@) == v@.subrange(a, b)`.
pub fn trim_bounds(v: &Vec<char>) -> (r: (usize, usize))
    ensures
        r.0 <= r.1 <= v.len(),
        v@.subrange(r.0 as int, r.1 as int) == trim(v@),
{
    let mut i: usize = 0;
    assert(v@.subrange(0, v.len() as int) =~= v@);
    while i < v.len() && is_ws_char(v[i])
        invariant
            i <= v.len(),
            trim_start(v@) == trim_start(v@.subrange(i as int, v.len() as int)),
        decreases v.len() - i,
    {
        proof {
            lemma_trim_start_step(v@, i as int);
        }
        i += 1;
    }
    let ghost ts = v@.subrange(i as int, v.len() as int);
    assert(trim_start(ts) == ts);
    assert(trim_start(v@) == ts);
    let mut j: usize = v.len();
    while j > i && is_ws_char(v[j - 1])
        invariant
            i <= j <= v.len(),
            ts == v@.subrange(i as int, v.len() as int),
            trim_end(ts) == trim_end(v@.subrange(i as int, j as int)),
        decreases j,
    {
        proof {
            let u = v@.subrange(i as int, j as int);
            assert(u.drop_last() =~= v@.subrange(i as int, j - 1));
        }
        j -= 1;
    }
    let ghost te = v@.subrange(i as int, j as int);
    assert(trim_end(te) == te);
    (i, j)
}

/// The characters of `v` from `a` to `b`.
pub fn sub_chars(v: &Vec<char>, a: usize, b: usize) -> (r: Vec<char>)
    requires
        a <= b <= v.len(),
    ensures
        r@ == v@.subrange(a as int, b as int),
{
    let mut r: Vec<char> = Vec::new();
    let mut i: usize = a;
    while i < b
        invariant
            a <= i <= b <= v.len(),
            r@ == v@.subrange(a as int, i as int),
        decreases b - i,
    {
        r.push(v[i]);
        i += 1;
        assert(r@ =~= v@.subrange(a as int, i as int));
    }
    r
}

/// `str::trim` over characters.
pub fn trim_chars(v: &Vec<char>) -> (r: Vec<char>)
    ensures
        r@ == trim(v@),
{
    let (a, b) = trim_bounds(v);
    sub_chars(v, a, b)
}

// ─────────────────────────────── splitting ─────────────────────────────────

pub open spec fn deep(v: Seq<Vec<char>>) -> Seq<Seq<char>> {
    v.map_values(|x: Vec<char>| x@)
}

/// `str::split` on one character.
pub fn split_chars(v: &Vec<char>, c: char) -> (r: Vec<Vec<char>>)
    ensures
        deep(r@) == split(v@, c),
        r.len() >= 1,
{
    let mut pieces: Vec<Vec<char>> = Vec::new();
    let mut cur: Vec<char> = Vec::new();
    let mut i: usize = 0;
    assert(v@.take(0) =~= Seq::<char>::empty());
    assert(deep(pieces@).push(cur@) =~= split(v@.take(0), c));
    while i < v.len()
        invariant
            i <= v.len(),
            deep(pieces@).push(cur@) == split(v@.take(i as int), c),
        decreases v.len() - i,
    {
        let x = v[i];
        let ghost before = deep(pieces@);
        proof {
            assert(v@.take(i + 1).drop_last() =~= v@.take(i as int));
            assert(v@.take(i + 1).last() == x);
        }
        if x == c {
            let done = cur;
            pieces.push(done);
            cur = Vec::new();
            assert(deep(pieces@) =~= before.push(done@));
            assert(deep(pieces@).push(cur@) =~= split(v@.take(i + 1), c));
        } else {
            cur.push(x);
            assert(deep(pieces@).push(cur@) =~= split(v@.take(i + 1), c));
        }
        i += 1;
    }
    assert(v@.take(v.len() as int) =~= v@);
    let ghost before = deep(pieces@);
    pieces.push(cur);
    assert(deep(pieces@) =~= before.push(cur@));
    pieces
}

/// Pieces joined with a separator.
pub fn join_chars(pieces: &Vec<Vec<char>>, sep: &Vec<char>) -> (r: Vec<char>)
    ensures
        r@ == join(deep(pieces@), sep@),
{
    let mut r: Vec<char> = Vec::new();
    let mut i: usize = 0;
    while i < pieces.len()
        invariant
            i <= pieces.len(),
            r@ == join(deep(pieces@).take(i as int), sep@),
        decreases pieces.len() - i,
    {
        let ghost t = deep(pieces@).take(i + 1);
        proof {
            assert(t.drop_last() =~= deep(pieces@).take(i as int));
            assert(t.last() == pieces@[i as int]@);
        }
        if i > 0 {
            let mut k: usize = 0;
            let ghost r0 = r@;
            while k < sep.len()
                invariant
                    k <= sep.len(),
                    r@ == r0 + sep@.take(k as int),
                decreases sep.len() - k,
            {
                r.push(sep[k]);
                k += 1;
                assert(r@ =~= r0 + sep@.take(k as int));
            }
            assert(sep@.take(sep.len() as int) =~= sep@);
        }
        let ghost r1 = r@;
        let p = &pieces[i];
        let mut k: usize = 0;
        while k < p.len()
            invariant
                k <= p.len(),
                r@ == r1 + p@.take(k as int),
            decreases p.len() - k,
        {
            r.push(p[k]);
            k += 1;
            assert(r@ =~= r1 + p@.take(k as int));
        }
        assert(p@.take(p.len() as int) =~= p@);
        if i == 0 {
            assert(t.len() == 1);
            assert(r@ =~= join(t, sep@));
        }
        i += 1;
    }
    assert(deep(pieces@).take(pieces.len() as int) =~= deep(pieces@));
    r
}

/// `str::splitn(n, c)`.
pub fn splitn_chars(v: &Vec<char>, c: char, n: usize) -> (r: Vec<Vec<char>>)
    requires
        n >= 1,
    ensures
        deep(r@) == splitn(v@, c, n as nat),
{
    let p = split_chars(v, c);
    if p.len() <= n {
        return p;
    }
    let mut head: Vec<Vec<char>> = Vec::new();
    let mut tail: Vec<Vec<char>> = Vec::new();
    let mut i: usize = 0;
    while i < p.len()
        invariant
            n >= 1,
            p.len() > n,
            i <= p.len(),
            i < n ==> deep(head@) == deep(p@).take(i as int) && tail.len() == 0,
            i >= n ==> deep(head@) == deep(p@).take(n - 1)
                && deep(tail@) == deep(p@).subrange(n - 1, i as int),
            n - 1 <= i ==> deep(head@) == deep(p@).take(n - 1),
        decreases p.len() - i,
    {
        let ghost h0 = deep(head@);
        let ghost t0 = deep(tail@);
        let piece = copy_chars(&p[i]);
        if i < n - 1 {
            head.push(piece);
            assert(deep(head@) =~= h0.push(piece@));
            assert(deep(head@) =~= deep(p@).take(i + 1));
        } else {
            tail.push(piece);
            assert(deep(tail@) =~= t0.push(piece@));
            assert(deep(tail@) =~= deep(p@).subrange(n - 1, i + 1));
        }
        i += 1;
    }
    assert(deep(tail@) =~= deep(p@).skip(n - 1));
    let sep = vec![c];
    assert(sep@ =~= seq![c]);
    let rest = join_chars(&tail, &sep);
    let ghost h0 = deep(head@);
    head.push(rest);
    assert(deep(head@) =~= h0.push(rest@));
    head
}

/// A copy of a character vector.
pub fn copy_chars(v: &Vec<char>) -> (r: Vec<char>)
    ensures
        r@ == v@,
{
    sub_chars(v, 0, v.len())
}

/// `s` without one trailing `\r`.
pub fn strip_cr_chars(v: &Vec<char>) -> (r: Vec<char>)
    ensures
        r@ == strip_cr(v@),
{
    if v.len() > 0 && v[v.len() - 1] == '\r' {
        sub_chars(v, 0, v.len() - 1)
    } else {
        copy_chars(v)
    }
}

/// `str::lines`.
pub fn lines_chars(v: &Vec<char>) -> (r: Vec<Vec<char>>)
    ensures
        deep(r@) == lines(v@),
{
    let mut r: Vec<Vec<char>> = Vec::new();
    if v.len() == 0 {
        assert(deep(r@) =~= lines(v@));
        return r;
    }
    let p = split_chars(v, '\n');
    let ghost dp = deep(p@);
    let ghost stripped = dp.drop_last().map_values(|l: Seq<char>| strip_cr(l));
    let mut i: usize = 0;
    while i + 1 < p.len()
        invariant
            p.len() >= 1,
            i + 1 <= p.len(),
            dp == deep(p@),
            stripped == dp.drop_last().map_values(|l: Seq<char>| strip_cr(l)),
            deep(r@) == stripped.take(i as int),
        decreases p.len() - i,
    {
        let l = strip_cr_chars(&p[i]);
        let ghost r0 = deep(r@);
        r.push(l);
        assert(deep(r@) =~= r0.push(l@));
        assert(deep(r@) =~= stripped.take(i + 1));
        i += 1;
    }
    assert(stripped.take(i as int) =~= stripped);
    if v[v.len() - 1] != '\n' {
        let last = copy_chars(&p[p.len() - 1]);
        let ghost r0 = deep(r@);
        r.push(last);
        assert(deep(r@) =~= r0.push(last@));
    }
    r
}

// ─────────────────────────────── numbers ───────────────────────────────────

proof fn lemma_digits_value_mono(s: Seq<char>, i: int, j: int)
    requires
        0 <= i <= j <= s.len(),
    ensures
        digits_value(s.take(i)) <= digits_value(s.take(j)),
    decreases j - i,
{
    if i < j {
        lemma_digits_value_mono(s, i, j - 1);
        assert(s.take(j).drop_last() =~= s.take(j - 1));
    }
}

proof fn lemma_mul_div_bound(acc: int, d: int, bound: int)
    requires
        0 <= acc,
        0 <= d <= bound,
    ensures
        acc <= (bound - d) / 10 <==> acc * 10 + d <= bound,
{
    assert(acc <= (bound - d) / 10 <==> acc * 10 + d <= bound) by (nonlinear_arith)
        requires 0 <= acc, 0 <= d <= bound;
}

pub fn is_digit_char(c: char) -> (r: bool)
    ensures
        r == is_digit(c),
{
    '0' <= c && c <= '9'
}

/// Reads the digits of `v` from `start` on, succeeding when there is at
/// least one, all are ASCII digits, and their value is at most `bound`.
fn digits_from(v: &Vec<char>, start: usize, bound: u64) -> (r: Option<u64>)
    requires
        start <= v.len(),
    ensures
        ({
            let t = v@.skip(start as int);
            r == if t.len() > 0 && all_digits(t) && digits_value(t) <= bound {
                Some(digits_value(t) as u64)
            } else {
                None::<u64>
            }
        }),
{
    let ghost t = v@.skip(start as int);
    if start == v.len() {
        return None;
    }
    let mut acc: u64 = 0;
    let mut over = false;
    let mut i: usize = start;
    assert(t.take(0) =~= Seq::<char>::empty());
    while i < v.len()
        invariant
            start <= i <= v.len(),
            t == v@.skip(start as int),
            forall|k: int| 0 <= k < i - start ==> #[trigger] is_digit(t[k]),
            !over ==> acc == digits_value(t.take(i - start)) && acc <= bound,
            over ==> digits_value(t.take(i - start)) > bound,
        decreases v.len() - i,
    {
        let c = v[i];
        if !is_digit_char(c) {
            assert(!is_digit(t[i - start]));
            return None;
        }
        let ghost k = i - start;
        proof {
            assert(t.take(k + 1).drop_last() =~= t.take(k));
            assert(t.take(k + 1).last() == c);
        }
        if !over {
            let d: u64 = (c as u32 - '0' as u32) as u64;
            assert(d == digit_val(c));
            if d > bound || acc > (bound - d) / 10 {
                proof {
                    if d <= bound {
                        lemma_mul_div_bound(acc as int, d as int, bound as int);
                    }
                }
                over = true;
            } else {
                proof {
                    lemma_mul_div_bound(acc as int, d as int, bound as int);
                }
                acc = acc * 10 + d;
            }
        }
        i += 1;
    }
    assert(t.take(v.len() - start) =~= t);
    assert(all_digits(t));
    if over {
        None
    } else {
        Some(acc)
    }
}

/// `s.parse::<u32>().ok()` over characters.
pub fn parse_u32_chars(v: &Vec<char>) -> (r: Option<u32>)
    ensures
        r == parse_u32(v@),
{
    let start: usize = if v.len() > 0 && v[0] == '+' { 1 } else { 0 };
    proof {
        if start == 1 {
            assert(v@.skip(1) =~= v@.drop_first());
        } else {
            assert(v@.skip(0) =~= v@);
        }
    }
    match digits_from(v, start, 0xffff_ffff) {
        Some(x) => Some(x as u32),
        None => None,
    }
}

/// `s.parse::<usize>().ok()`.
pub open spec fn parse_usize(s: Seq<char>) -> Option<usize> {
    match parse_unsigned(s) {
        Some(v) => if v <= usize::MAX { Some(v as usize) } else { None },
        None => None,
    }
}

/// `s.parse::<usize>().ok()` over characters.
pub fn parse_usize_chars(v: &Vec<char>) -> (r: Option<usize>)
    ensures
        r == parse_usize(v@),
{
    let start: usize = if v.len() > 0 && v[0] == '+' { 1 } else { 0 };
    proof {
        if start == 1 {
            assert(v@.skip(1) =~= v@.drop_first());
        } else {
            assert(v@.skip(0) =~= v@);
        }
    }
    match digits_from(v, start, usize::MAX as u64) {
        Some(x) => Some(x as usize),
        None => None,
    }
}

/// `s.parse::<u8>().ok()` over characters.
pub fn parse_u8_chars(v: &Vec<char>) -> (r: Option<u8>)
    ensures
        r == parse_u8(v@),
{
    let start: usize = if v.len() > 0 && v[0] == '+' { 1 } else { 0 };
    proof {
        if start == 1 {
            assert(v@.skip(1) =~= v@.drop_first());
        } else {
            assert(v@.skip(0) =~= v@);
        }
    }
    match digits_from(v, start, 0xff) {
        Some(x) => Some(x as u8),
        None => None,
    }
}

/// `s.parse::<i32>().ok()` over characters.
pub fn parse_i32_chars(v: &Vec<char>) -> (r: Option<i32>)
    ensures
        r == parse_i32(v@),
{
    if v.len() > 0 && v[0] == '-' {
        assert(v@.skip(1) =~= v@.drop_first());
        match digits_from(v, 1, 0x8000_0000) {
            Some(x) => {
                let y: i64 = 0 - (x as i64);
                Some(y as i32)
            },
            None => None,
        }
    } else {
        let start: usize = if v.len() > 0 && v[0] == '+' { 1 } else { 0 };
        proof {
            if start == 1 {
                assert(v@.skip(1) =~= v@.drop_first());
            } else {
                assert(v@.skip(0) =~= v@);
            }
        }
        match digits_from(v, start, 0x7fff_ffff) {
            Some(x) => Some(x as i32),
            None => None,
        }
    }
}

/// Decimal digits of `n`.
pub fn decimal_chars(n: u64) -> (r: Vec<char>)
    ensures
        r@ == decimal(n as nat),
    decreases n,
{
    let d: u8 = (n % 10) as u8;
    let c: char = (d + 48u8) as char;
    if n < 10 {
        let v = vec![c];
        assert(v@ =~= decimal(n as nat));
        v
    } else {
        let mut v = decimal_chars(n / 10);
        v.push(c);
        v
    }
}

/// How `Display` writes a signed integer.
pub fn int_chars(n: i64) -> (r: Vec<char>)
    ensures
        r@ == int_text(n as int),
{
    if n < 0 {
        let m: u64 = (0i128 - (n as i128)) as u64;
        let d = decimal_chars(m);
        let mut r = vec!['-'];
        let mut i: usize = 0;
        while i < d.len()
            invariant
                i <= d.len(),
                r@ == seq!['-'] + d@.take(i as int),
            decreases d.len() - i,
        {
            r.push(d[i]);
            i += 1;
            assert(r@ =~= seq!['-'] + d@.take(i as int));
        }
        assert(d@.take(d.len() as int) =~= d@);
        r
    } else {
        decimal_chars(n as u64)
    }
}

/// Appends the decimal text of `n`.
pub fn push_int(s: &mut String, n: i64)
    ensures
        final(s)@ == old(s)@ + int_text(n as int),
{
    let v = int_chars(n);
    push_chars(s, &v);
}


// ─────────────────────────────── searching ─────────────────────────────────

/// Index of the first occurrence of `c` (`str::find` on a character).
pub open spec fn find(s: Seq<char>, c: char) -> Option<int>
    decreases s.len(),
{
    if s.len() == 0 {
        None
    } else {
        match find(s.drop_last(), c) {
            Some(i) => Some(i),
            None => if s.last() == c { Some(s.len() - 1) } else { None },
        }
    }
}

/// Index of the last occurrence of `c` (`str::rfind` on a character).
pub open spec fn rfind(s: Seq<char>, c: char) -> Option<int>
    decreases s.len(),
{
    if s.len() == 0 {
        None
    } else if s.last() == c {
        Some(s.len() - 1)
    } else {
        rfind(s.drop_last(), c)
    }
}

pub proof fn lemma_find(s: Seq<char>, c: char)
    ensures
        match find(s, c) {
            Some(i) => 0 <= i < s.len() && s[i] == c && forall|k: int| 0 <= k < i ==> s[k] != c,
            None => forall|k: int| 0 <= k < s.len() ==> s[k] != c,
        },
    decreases s.len(),
{
    if s.len() > 0 {
        let p = s.drop_last();
        lemma_find(p, c);
        assert(forall|k: int| 0 <= k < p.len() ==> p[k] == s[k]);
    }
}

pub proof fn lemma_rfind(s: Seq<char>, c: char)
    ensures
        match rfind(s, c) {
            Some(i) => 0 <= i < s.len() && s[i] == c && forall|k: int| i < k < s.len() ==> s[k] != c,
            None => forall|k: int| 0 <= k < s.len() ==> s[k] != c,
        },
    decreases s.len(),
{
    if s.len() > 0 && s.last() != c {
        let p = s.drop_last();
        lemma_rfind(p, c);
        assert(forall|k: int| 0 <= k < p.len() ==> p[k] == s[k]);
    }
}

/// `str::find` on a character.
pub fn find_char(v: &Vec<char>, c: char) -> (r: Option<usize>)
    ensures
        match r {
            Some(i) => find(v@, c) == Some(i as int) && i < v.len(),
            None => find(v@, c) is None,
        },
{
    let mut i: usize = 0;
    while i < v.len()
        invariant
            i <= v.len(),
            find(v@.take(i as int), c) is None,
        decreases v.len() - i,
    {
        assert(v@.take(i + 1).drop_last() =~= v@.take(i as int));
        if v[i] == c {
            proof {
                lemma_find(v@, c);
                lemma_find(v@.take(i as int), c);
                if find(v@, c) != Some(i as int) {
                    let j = find(v@, c)->0;
                    assert(v@.take(i as int)[j] == c);
                }
            }
            return Some(i);
        }
        i += 1;
    }
    assert(v@.take(v.len() as int) =~= v@);
    None
}

/// `str::rfind` on a character.
pub fn rfind_char(v: &Vec<char>, c: char) -> (r: Option<usize>)
    ensures
        match r {
            Some(i) => rfind(v@, c) == Some(i as int) && i < v.len(),
            None => rfind(v@, c) is None,
        },
{
    let mut j: usize = v.len();
    assert(v@.take(v.len() as int) =~= v@);
    while j > 0
        invariant
            j <= v.len(),
            rfind(v@, c) == rfind(v@.take(j as int), c),
        decreases j,
    {
        assert(v@.take(j as int).drop_last() =~= v@.take(j - 1));
        if v[j - 1] == c {
            return Some(j - 1);
        }
        j -= 1;
    }
    None
}


// ─────────────────────────────── joining ───────────────────────────────────

pub open spec fn views(v: Seq<String>) -> Seq<Seq<char>> {
    v.map_values(|x: String| x@)
}

proof fn lemma_join_step(p: Seq<Seq<char>>, sep: Seq<char>, i: int)
    requires
        0 <= i < p.len(),
    ensures
        join(p.take(i + 1), sep) == if i == 0 { p[0] } else { join(p.take(i), sep) + sep + p[i] },
{
    let t = p.take(i + 1);
    assert(t.drop_last() =~= p.take(i));
    assert(t.last() == p[i]);
    if i == 0 {
        assert(t.len() == 1);
        assert(t[0] == p[0]);
    }
}

/// Strings joined with a separator (`[String]::join`).
pub fn join_strings(v: &Vec<String>, sep: &str) -> (r: String)
    ensures
        r@ == join(views(v@), sep@),
{
    let mut r = String::new();
    let mut i: usize = 0;
    while i < v.len()
        invariant
            i <= v.len(),
            r@ == join(views(v@).take(i as int), sep@),
        decreases v.len() - i,
    {
        proof {
            lemma_join_step(views(v@), sep@, i as int);
        }
        if i > 0 {
            push_str(&mut r, sep);
        }
        push_str(&mut r, v[i].as_str());
        i += 1;
    }
    assert(views(v@).take(v.len() as int) =~= views(v@));
    r
}

pub open spec fn decimals(v: Seq<u32>) -> Seq<Seq<char>> {
    v.map_values(|x: u32| decimal(x as nat))
}

/// Appends the numbers of `v` in decimal, separated by `sep`.
pub fn push_joined_u32(s: &mut String, v: &Vec<u32>, sep: &str)
    ensures
        final(s)@ == old(s)@ + join(decimals(v@), sep@),
{
    let ghost s0 = s@;
    let mut i: usize = 0;
    while i < v.len()
        invariant
            i <= v.len(),
            s@ == s0 + join(decimals(v@).take(i as int), sep@),
        decreases v.len() - i,
    {
        proof {
            lemma_join_step(decimals(v@), sep@, i as int);
        }
        let ghost before = s@;
        if i > 0 {
            push_str(s, sep);
        }
        let d = decimal_chars(v[i] as u64);
        push_chars(s, &d);
        proof {
            if i > 0 {
                assert(s@ =~= s0 + join(decimals(v@).take(i + 1), sep@));
            } else {
                assert(s@ =~= s0 + join(decimals(v@).take(i + 1), sep@));
            }
        }
        i += 1;
    }
    assert(decimals(v@).take(v.len() as int) =~= decimals(v@));
}

/// The first `n` characters (`s.chars().take(n).collect()`).
pub open spec fn take_chars(s: Seq<char>, n: nat) -> Seq<char> {
    if s.len() <= n { s } else { s.take(n as int) }
}

/// `s.chars().take(n).collect::<String>()`.
pub fn take_prefix(s: &str, n: usize) -> (r: String)
    ensures
        r@ == take_chars(s@, n as nat),
{
    let v = to_chars(s);
    if v.len() <= n {
        string_of(&v)
    } else {
        let t = sub_chars(&v, 0, n);
        assert(t@ =~= v@.take(n as int));
        string_of(&t)
    }
}


// ─────────────────────────────── first match ───────────────────────────────

/// Index of the first element satisfying `p` (what `iter().find` / `position` pick).
pub open spec fn first_index<T>(s: Seq<T>, p: spec_fn(T) -> bool) -> Option<int>
    decreases s.len(),
{
    if s.len() == 0 {
        None
    } else {
        match first_index(s.drop_last(), p) {
            Some(i) => Some(i),
            None => if p(s.last()) { Some(s.len() - 1) } else { None },
        }
    }
}

pub proof fn lemma_first_index<T>(s: Seq<T>, p: spec_fn(T) -> bool)
    ensures
        match first_index(s, p) {
            Some(i) => 0 <= i < s.len() && p(s[i]) && forall|k: int| 0 <= k < i ==> !p(s[k]),
            None => forall|k: int| 0 <= k < s.len() ==> !p(s[k]),
        },
    decreases s.len(),
{
    if s.len() > 0 {
        let q = s.drop_last();
        lemma_first_index(q, p);
        assert(forall|k: int| 0 <= k < q.len() ==> q[k] == s[k]);
    }
}

/// The loop step of a left-to-right search: no match before `i`, and
/// whether `s[i]` matches decides the answer up to `i + 1`.
pub proof fn lemma_first_index_step<T>(s: Seq<T>, p: spec_fn(T) -> bool, i: int)
    requires
        0 <= i < s.len(),
        first_index(s.take(i), p) is None,
    ensures
        p(s[i]) ==> first_index(s, p) == Some(i),
        !p(s[i]) ==> first_index(s.take(i + 1), p) is None,
{
    let t = s.take(i + 1);
    assert(t.drop_last() =~= s.take(i));
    assert(t.last() == s[i]);
    if p(s[i]) {
        lemma_first_index(s, p);
        lemma_first_index(s.take(i), p);
        lemma_first_index(t, p);
        match first_index(s, p) {
            Some(j) => {
                if j < i {
                    assert(s.take(i)[j] == s[j]);
                }
            },
            None => {},
        }
    }
}

/// Replacing the first match by another match keeps it the first match.
pub proof fn lemma_first_index_update_hit<T>(s: Seq<T>, p: spec_fn(T) -> bool, i: int, x: T)
    requires
        first_index(s, p) == Some(i),
        p(x),
    ensures
        first_index(s.update(i, x), p) == Some(i),
{
    lemma_first_index(s, p);
    let t = s.update(i, x);
    lemma_first_index(t, p);
    match first_index(t, p) {
        Some(j) => {
            if j < i {
                assert(t[j] == s[j]);
            } else if j > i {
                assert(t[i] == x);
            }
        },
        None => {
            assert(t[i] == x);
        },
    }
}

/// Replacing a non-matching element by another non-matching one leaves the
/// first match where it was.
pub proof fn lemma_first_index_update_miss<T>(s: Seq<T>, p: spec_fn(T) -> bool, i: int, x: T)
    requires
        0 <= i < s.len(),
        !p(s[i]),
        !p(x),
    ensures
        first_index(s.update(i, x), p) == first_index(s, p),
{
    let t = s.update(i, x);
    lemma_first_index(s, p);
    lemma_first_index(t, p);
    match first_index(s, p) {
        Some(a) => {
            assert(t[a] == s[a]);
            match first_index(t, p) {
                Some(b) => {
                    if b < a {
                        if b != i {
                            assert(t[b] == s[b]);
                        }
                    }
                },
                None => {},
            }
        },
        None => {
            match first_index(t, p) {
                Some(b) => {
                    if b != i {
                        assert(t[b] == s[b]);
                    }
                },
                None => {},
            }
        },
    }
}

/// Appending: an existing first match stays; otherwise a matching new
/// element becomes it.
pub proof fn lemma_first_index_push<T>(s: Seq<T>, p: spec_fn(T) -> bool, x: T)
    ensures
        first_index(s.push(x), p) == match first_index(s, p) {
            Some(i) => Some(i),
            None => if p(x) { Some(s.len() as int) } else { None },
        },
{
    assert(s.push(x).drop_last() =~= s);
}

pub proof fn lemma_first_index_all<T>(s: Seq<T>, p: spec_fn(T) -> bool)
    ensures
        first_index(s.take(s.len() as int), p) == first_index(s, p),
{
    assert(s.take(s.len() as int) =~= s);
}


pub proof fn lemma_views_push(v: Seq<String>, x: String)
    ensures
        views(v.push(x)) == views(v).push(x@),
{
    assert(views(v.push(x)) =~= views(v).push(x@));
}

pub proof fn lemma_map_take_step<A, B>(s: Seq<A>, f: spec_fn(A) -> B, k: int)
    requires
        0 <= k < s.len(),
    ensures
        s.take(k + 1).map_values(f) == s.take(k).map_values(f).push(f(s[k])),
{
    assert(s.take(k + 1).map_values(f) =~= s.take(k).map_values(f).push(f(s[k])));
}


// ─────────────────────────────── ordering ──────────────────────────────────

/// Lexicographic order of character sequences (the order of `str`).
pub open spec fn seq_lt(a: Seq<char>, b: Seq<char>) -> bool
    decreases a.len(),
{
    if a.len() == 0 {
        b.len() > 0
    } else if b.len() == 0 {
        false
    } else if a[0] < b[0] {
        true
    } else if a[0] == b[0] {
        seq_lt(a.drop_first(), b.drop_first())
    } else {
        false
    }
}

pub proof fn lemma_seq_lt_irrefl(a: Seq<char>)
    ensures
        !seq_lt(a, a),
    decreases a.len(),
{
    if a.len() > 0 {
        lemma_seq_lt_irrefl(a.drop_first());
    }
}

pub proof fn lemma_seq_lt_trans(a: Seq<char>, b: Seq<char>, c: Seq<char>)
    requires
        seq_lt(a, b),
        seq_lt(b, c),
    ensures
        seq_lt(a, c),
    decreases a.len(),
{
    if a.len() > 0 && b.len() > 0 && c.len() > 0 {
        if a[0] == b[0] && b[0] == c[0] {
            lemma_seq_lt_trans(a.drop_first(), b.drop_first(), c.drop_first());
        }
    }
}

pub proof fn lemma_seq_lt_total(a: Seq<char>, b: Seq<char>)
    requires
        a != b,
    ensures
        seq_lt(a, b) || seq_lt(b, a),
    decreases a.len(),
{
    if a.len() > 0 && b.len() > 0 && a[0] == b[0] {
        if a.drop_first() == b.drop_first() {
            assert(a =~= seq![a[0]] + a.drop_first());
            assert(b =~= seq![b[0]] + b.drop_first());
        }
        lemma_seq_lt_total(a.drop_first(), b.drop_first());
    } else if a.len() == 0 && b.len() == 0 {
        assert(a =~= b);
    }
}

pub proof fn lemma_seq_lt_asym(a: Seq<char>, b: Seq<char>)
    requires
        seq_lt(a, b),
    ensures
        !seq_lt(b, a),
{
    if seq_lt(b, a) {
        lemma_seq_lt_trans(a, b, a);
        lemma_seq_lt_irrefl(a);
    }
}

/// Position `a` comes before position `b` when their keys are listed in
/// `str` order, equal keys keeping their positions (a stable sort).
pub open spec fn key_before(keys: Seq<Seq<char>>, a: int, b: int) -> bool {
    seq_lt(keys[a], keys[b]) || (keys[a] == keys[b] && a < b)
}

/// The positions of `keys` in the order a stable sort by key puts them
/// (`sort_by_key` on the keys): every position once, each before the next.
pub fn order_by_key(keys: &Vec<String>) -> (r: Vec<usize>)
    ensures
        r.len() == keys.len(),
        forall|j: int| 0 <= j < r.len() ==> #[trigger] r@[j] < keys.len(),
        forall|k: usize| k < keys.len() ==> #[trigger] r@.contains(k),
        forall|j: int, k: int|
            0 <= j < k < r.len() ==> key_before(views(keys@), #[trigger] r@[j] as int, #[trigger] r@[k] as int),
{
    let ghost ks = views(keys@);
    let mut r: Vec<usize> = Vec::new();
    let mut i: usize = 0;
    while i < keys.len()
        invariant
            i <= keys.len(),
            ks == views(keys@),
            r.len() == i,
            forall|j: int| 0 <= j < r.len() ==> #[trigger] r@[j] < i,
            forall|k: usize| k < i ==> #[trigger] r@.contains(k),
            forall|j: int, k: int|
                0 <= j < k < r.len() ==> key_before(ks, #[trigger] r@[j] as int, #[trigger] r@[k] as int),
        decreases keys.len() - i,
    {
        let mut p: usize = 0;
        while p < r.len() && !str_lt(keys[i].as_str(), keys[r[p]].as_str())
            invariant
                p <= r.len(),
                i < keys.len(),
                ks == views(keys@),
                forall|j: int| 0 <= j < r.len() ==> #[trigger] r@[j] < i,
                forall|j: int| 0 <= j < p ==> !seq_lt(ks[i as int], #[trigger] ks[r@[j] as int]),
            decreases r.len() - p,
        {
            assert(ks[r@[p as int] as int] == keys@[r@[p as int] as int]@);
            p += 1;
        }
        proof {
            if p < r.len() {
                assert(ks[r@[p as int] as int] == keys@[r@[p as int] as int]@);
                assert(seq_lt(ks[i as int], ks[r@[p as int] as int]));
            }
        }
        let ghost old_r = r@;
        r.insert(p, i);
        proof {
            assert(r@ == old_r.insert(p as int, i));
            assert forall|j: int| 0 <= j < r.len() implies #[trigger] r@[j] < i + 1 by {
                if j < p {
                    assert(r@[j] == old_r[j]);
                } else if j > p {
                    assert(r@[j] == old_r[j - 1]);
                }
            }
            assert forall|k: usize| k < i + 1 implies #[trigger] r@.contains(k) by {
                if k == i {
                    assert(r@[p as int] == i);
                } else {
                    assert(old_r.contains(k));
                    let w = choose|w: int| 0 <= w < old_r.len() && old_r[w] == k;
                    if w < p {
                        assert(r@[w] == old_r[w]);
                    } else {
                        assert(r@[w + 1] == old_r[w]);
                    }
                }
            }
            assert forall|j: int, k: int|
                0 <= j < k < r.len() implies key_before(ks, #[trigger] r@[j] as int, #[trigger] r@[k] as int) by {
                if k < p {
                    assert(r@[j] == old_r[j] && r@[k] == old_r[k]);
                } else if k == p {
                    assert(r@[j] == old_r[j]);
                    assert(!seq_lt(ks[i as int], ks[old_r[j] as int]));
                    if ks[i as int] != ks[old_r[j] as int] {
                        lemma_seq_lt_total(ks[i as int], ks[old_r[j] as int]);
                    }
                } else if j < p {
                    assert(r@[j] == old_r[j] && r@[k] == old_r[k - 1]);
                    if j < k - 1 {
                        assert(key_before(ks, old_r[j] as int, old_r[k - 1] as int));
                    }
                } else if j == p {
                    assert(r@[k] == old_r[k - 1]);
                    assert(seq_lt(ks[i as int], ks[old_r[p as int] as int]));
                    if k - 1 > p {
                        assert(key_before(ks, old_r[p as int] as int, old_r[k - 1] as int));
                        if seq_lt(ks[old_r[p as int] as int], ks[old_r[k - 1] as int]) {
                            lemma_seq_lt_trans(ks[i as int], ks[old_r[p as int] as int], ks[old_r[k - 1] as int]);
                        }
                    }
                } else {
                    assert(r@[j] == old_r[j - 1] && r@[k] == old_r[k - 1]);
                }
            }
        }
        i += 1;
    }
    r
}

/// `a < b` for strings.
pub fn str_lt(a: &str, b: &str) -> (r: bool)
    ensures
        r == seq_lt(a@, b@),
{
    let va = to_chars(a);
    let vb = to_chars(b);
    let mut i: usize = 0;
    assert(va@.skip(0) =~= va@);
    assert(vb@.skip(0) =~= vb@);
    while i < va.len() && i < vb.len() && va[i] == vb[i]
        invariant
            i <= va.len(),
            i <= vb.len(),
            seq_lt(va@, vb@) == seq_lt(va@.skip(i as int), vb@.skip(i as int)),
        decreases va.len() - i,
    {
        proof {
            let x = va@.skip(i as int);
            let y = vb@.skip(i as int);
            assert(x.drop_first() =~= va@.skip(i + 1));
            assert(y.drop_first() =~= vb@.skip(i + 1));
        }
        i += 1;
    }
    proof {
        assert(va@.skip(0) =~= va@);
        assert(vb@.skip(0) =~= vb@);
    }
    if i == va.len() {
        i < vb.len()
    } else if i == vb.len() {
        false
    } else {
        va[i] < vb[i]
    }
}

/// The order of `str`, as a relation: `a <= b`.
pub open spec fn name_order() -> spec_fn(Seq<char>, Seq<char>) -> bool {
    |a: Seq<char>, b: Seq<char>| !seq_lt(b, a)
}

/// `v` sorted in the order of `str` (what `Vec::<String>::sort` leaves).
pub open spec fn sorted_names(v: Seq<Seq<char>>) -> Seq<Seq<char>> {
    v.sort_by(name_order())
}

pub proof fn lemma_name_order_total()
    ensures
        vstd::relations::total_ordering(name_order()),
{
    let le = name_order();
    assert forall|a: Seq<char>| #[trigger] le(a, a) by {
        lemma_seq_lt_irrefl(a);
    }
    assert forall|a: Seq<char>, b: Seq<char>| #[trigger] le(a, b) && #[trigger] le(b, a) implies a == b by {
        if a != b {
            lemma_seq_lt_total(a, b);
        }
    }
    assert forall|a: Seq<char>, b: Seq<char>, c: Seq<char>|
        #[trigger] le(a, b) && #[trigger] le(b, c) implies le(a, c) by {
        if seq_lt(c, a) {
            if a == b {
            } else {
                lemma_seq_lt_total(a, b);
                lemma_seq_lt_trans(c, a, b);
            }
        }
    }
    assert forall|a: Seq<char>, b: Seq<char>| #[trigger] le(a, b) || #[trigger] le(b, a) by {
        if seq_lt(b, a) {
            lemma_seq_lt_asym(b, a);
        }
    }
}

/// Sorts names in the order of `str` (insertion sort).
pub fn sort_strings(v: &Vec<String>) -> (r: Vec<String>)
    ensures
        views(r@) == sorted_names(views(v@)),
{
    broadcast use vstd::seq_lib::group_to_multiset_ensures;

    let ghost le = name_order();
    let ghost all = views(v@);
    let mut r: Vec<String> = Vec::new();
    let mut i: usize = 0;
    assert(all.take(0) =~= Seq::<Seq<char>>::empty());
    assert(views(r@) =~= Seq::<Seq<char>>::empty());
    while i < v.len()
        invariant
            i <= v.len(),
            le == name_order(),
            all == views(v@),
            vstd::relations::sorted_by(views(r@), le),
            views(r@).to_multiset() == all.take(i as int).to_multiset(),
        decreases v.len() - i,
    {
        let x = &v[i];
        let mut p: usize = 0;
        while p < r.len() && !str_lt(x.as_str(), r[p].as_str())
            invariant
                p <= r.len(),
                forall|k: int| 0 <= k < p ==> !seq_lt(x@, #[trigger] views(r@)[k]),
            decreases r.len() - p,
        {
            p += 1;
        }
        let ghost before = views(r@);
        let y = copy_string(x);
        r.insert(p, y);
        proof {
            assert(views(r@) =~= before.insert(p as int, x@));
            let after = views(r@);
            assert forall|a: int, b: int| 0 <= a < b < after.len() implies #[trigger] le(after[a], after[b]) by {
                if b < p {
                    assert(after[a] == before[a] && after[b] == before[b]);
                } else if b == p {
                    assert(after[a] == before[a]);
                    assert(!seq_lt(x@, before[a]));
                } else if a == p {
                    assert(after[b] == before[b - 1]);
                    assert(seq_lt(x@, before[p as int]));
                    if seq_lt(before[b - 1], x@) {
                        lemma_seq_lt_trans(before[b - 1], x@, before[p as int]);
                        if p < b - 1 {
                            assert(le(before[p as int], before[b - 1]));
                        } else {
                            lemma_seq_lt_irrefl(before[p as int]);
                        }
                    }
                } else if a < p {
                    assert(after[a] == before[a] && after[b] == before[b - 1]);
                    assert(le(before[a], before[b - 1]));
                } else {
                    assert(after[a] == before[a - 1] && after[b] == before[b - 1]);
                    assert(le(before[a - 1], before[b - 1]));
                }
            }
            assert(all.take(i + 1) =~= all.take(i as int).push(x@));
            vstd::seq_lib::to_multiset_insert(before, p as int, x@);
            vstd::seq_lib::to_multiset_build(all.take(i as int), x@);
            assert(views(r@).to_multiset() == before.to_multiset().insert(x@));
        }
        i += 1;
    }
    proof {
        assert(all.take(v.len() as int) =~= all);
        lemma_name_order_total();
        all.lemma_sort_by_ensures(le);
        vstd::seq_lib::lemma_sorted_unique(views(r@), all.sort_by(le), le);
    }
    r
}

/// Strips a prefix: the rest when `v` starts with `p`.
pub fn strip_prefix_chars(v: &Vec<char>, p: &str) -> (r: Option<Vec<char>>)
    ensures
        match r {
            Some(rest) => starts_with(v@, p@) && rest@ == v@.skip(p@.len() as int),
            None => !starts_with(v@, p@),
        },
{
    let pv = to_chars(p);
    if pv.len() > v.len() {
        return None;
    }
    let head = sub_chars(v, 0, pv.len());
    if chars_eq(&head, &pv) {
        let rest = sub_chars(v, pv.len(), v.len());
        assert(rest@ =~= v@.skip(p@.len() as int));
        Some(rest)
    } else {
        None
    }
}

/// Whether `v` equals the string `s`.
pub fn chars_eq_str(v: &Vec<char>, s: &str) -> (r: bool)
    ensures
        r == (v@ == s@),
{
    let sv = to_chars(s);
    chars_eq(v, &sv)
}


// ─────────────────────────────── utf-8 size ────────────────────────────────

/// Bytes of a character in UTF-8.
pub open spec fn utf8_width(c: char) -> nat {
    if (c as u32) < 0x80 {
        1
    } else if (c as u32) < 0x800 {
        2
    } else if (c as u32) < 0x10000 {
        3
    } else {
        4
    }
}

/// Bytes of a string in UTF-8 (what `str::len` returns).
pub open spec fn utf8_len(s: Seq<char>) -> nat
    decreases s.len(),
{
    if s.len() == 0 {
        0
    } else {
        utf8_len(s.drop_last()) + utf8_width(s.last())
    }
}

pub fn char_width(c: char) -> (r: usize)
    ensures
        r == utf8_width(c),
{
    let u = c as u32;
    if u < 0x80 {
        1
    } else if u < 0x800 {
        2
    } else if u < 0x10000 {
        3
    } else {
        4
    }
}

/// The UTF-8 size of `v`, or `None` when it exceeds `limit`.
pub fn utf8_len_upto(v: &Vec<char>, limit: usize) -> (r: Option<usize>)
    ensures
        match r {
            Some(n) => n == utf8_len(v@) && n <= limit,
            None => utf8_len(v@) > limit,
        },
{
    let mut n: usize = 0;
    let mut i: usize = 0;
    assert(v@.take(0) =~= Seq::<char>::empty());
    while i < v.len()
        invariant
            i <= v.len(),
            n == utf8_len(v@.take(i as int)),
            n <= limit,
        decreases v.len() - i,
    {
        assert(v@.take(i + 1).drop_last() =~= v@.take(i as int));
        let w = char_width(v[i]);
        if w > limit - n {
            proof {
                lemma_utf8_prefix_le(v@, i + 1);
            }
            return None;
        }
        n = n + w;
        i += 1;
    }
    assert(v@.take(v.len() as int) =~= v@);
    Some(n)
}

pub proof fn lemma_utf8_prefix_le(s: Seq<char>, k: int)
    requires
        0 <= k <= s.len(),
    ensures
        utf8_len(s.take(k)) <= utf8_len(s),
    decreases s.len() - k,
{
    if k < s.len() {
        lemma_utf8_prefix_le(s, k + 1);
        assert(s.take(k + 1).drop_last() =~= s.take(k));
    } else {
        assert(s.take(k) =~= s);
    }
}


// ─────────────────────────────── substrings ────────────────────────────────

/// Whether `p` occurs in `v` at index `i`.
pub fn occurs_at_chars(v: &Vec<char>, p: &Vec<char>, i: usize) -> (r: bool)
    ensures
        r == occurs_at(v@, p@, i as int),
{
    if i > v.len() || p.len() > v.len() - i {
        return false;
    }
    let mut k: usize = 0;
    while k < p.len()
        invariant
            i + p.len() <= v.len(),
            k <= p.len(),
            forall|j: int| 0 <= j < k ==> v@[i + j] == p@[j],
        decreases p.len() - k,
    {
        if v[i + k] != p[k] {
            proof {
                if occurs_at(v@, p@, i as int) {
                    assert(v@.subrange(i as int, i + p.len())[k as int] == v@[i + k]);
                }
            }
            return false;
        }
        k += 1;
    }
    assert(v@.subrange(i as int, i + p.len()) =~= p@);
    true
}

/// `str::ends_with` with a string pattern.
pub fn ends_with_chars(v: &Vec<char>, p: &Vec<char>) -> (r: bool)
    ensures
        r == ends_with(v@, p@),
{
    if p.len() > v.len() {
        return false;
    }
    let tail = sub_chars(v, v.len() - p.len(), v.len());
    chars_eq(&tail, p)
}

/// `str::contains` with a string pattern.
pub fn contains_chars(v: &Vec<char>, p: &Vec<char>) -> (r: bool)
    ensures
        r == contains(v@, p@),
{
    let mut i: usize = 0;
    while i < v.len()
        invariant
            i <= v.len(),
            forall|j: int| 0 <= j < i ==> !occurs_at(v@, p@, j),
        decreases v.len() - i,
    {
        if occurs_at_chars(v, p, i) {
            return true;
        }
        i += 1;
    }
    if occurs_at_chars(v, p, v.len()) {
        return true;
    }
    proof {
        if contains(v@, p@) {
            let j = choose|j: int| occurs_at(v@, p@, j);
            assert(j <= v.len());
        }
    }
    false
}

/// Every occurrence of `pat` replaced with `with`, left to right (`str::replace`).
pub open spec fn replace_all(s: Seq<char>, pat: Seq<char>, with: Seq<char>) -> Seq<char>
    decreases s.len(),
{
    if s.len() == 0 {
        Seq::empty()
    } else if pat.len() > 0 && starts_with(s, pat) {
        with + replace_all(s.skip(pat.len() as int), pat, with)
    } else {
        seq![s[0]] + replace_all(s.drop_first(), pat, with)
    }
}

/// `s.replace(pat, with)` for a non-empty pattern.
pub fn replace_str(s: &str, pat: &str, with: &str) -> (r: String)
    requires
        pat@.len() > 0,
    ensures
        r@ == replace_all(s@, pat@, with@),
{
    let v = to_chars(s);
    let p = to_chars(pat);
    let w = to_chars(with);
    let mut out: Vec<char> = Vec::new();
    let mut i: usize = 0;
    assert(v@.skip(0) =~= v@);
    while i < v.len()
        invariant
            i <= v.len(),
            p@ == pat@,
            p@.len() > 0,
            out@ + replace_all(v@.skip(i as int), p@, w@) == replace_all(v@, p@, w@),
        decreases v.len() - i,
    {
        let ghost rest = v@.skip(i as int);
        if occurs_at_chars(&v, &p, i) {
            proof {
                assert(rest.subrange(0, p@.len() as int) =~= v@.subrange(i as int, i + p@.len()));
                assert(rest.skip(p@.len() as int) =~= v@.skip(i + p@.len()));
            }
            let ghost o0 = out@;
            let mut k: usize = 0;
            while k < w.len()
                invariant
                    k <= w.len(),
                    out@ == o0 + w@.take(k as int),
                decreases w.len() - k,
            {
                out.push(w[k]);
                k += 1;
                assert(out@ =~= o0 + w@.take(k as int));
            }
            assert(w@.take(w.len() as int) =~= w@);
            assert(out@ + replace_all(v@.skip(i + p.len()), p@, w@) =~= o0 + replace_all(rest, p@, w@));
            i = i + p.len();
        } else {
            proof {
                if starts_with(rest, p@) {
                    assert(rest.subrange(0, p@.len() as int) =~= v@.subrange(i as int, i + p@.len()));
                }
                assert(rest.drop_first() =~= v@.skip(i + 1));
                assert(rest[0] == v@[i as int]);
            }
            let ghost o0 = out@;
            out.push(v[i]);
            assert(out@ + replace_all(v@.skip(i + 1), p@, w@) =~= o0 + replace_all(rest, p@, w@));
            i = i + 1;
        }
    }
    assert(v@.skip(v.len() as int) =~= Seq::<char>::empty());
    assert(out@ =~= replace_all(v@, p@, w@));
    string_of(&out)
}


/// Appends the decimal text of an unsigned number.
pub fn push_u64(s: &mut String, n: u64)
    ensures
        final(s)@ == old(s)@ + decimal(n as nat),
{
    let v = decimal_chars(n);
    push_chars(s, &v);
}

/// `split` across one separator: the pieces before it, then those after.
pub proof fn lemma_split_concat(a: Seq<char>, b: Seq<char>, c: char)
    ensures
        split(a + seq![c] + b, c) == split(a, c) + split(b, c),
    decreases b.len(),
{
    let s = a + seq![c] + b;
    if b.len() == 0 {
        assert(s =~= a.push(c));
        assert(s.drop_last() =~= a);
        assert(split(b, c) =~= seq![Seq::<char>::empty()]);
    } else {
        lemma_split_concat(a, b.drop_last(), c);
        assert(s.drop_last() =~= a + seq![c] + b.drop_last());
        assert(s.last() == b.last());
        let sa = split(a, c);
        let sb = split(b.drop_last(), c);
        lemma_split_len(b.drop_last(), c);
        lemma_split_len(a, c);
        if b.last() == c {
            assert((sa + sb).push(Seq::<char>::empty()) =~= sa + sb.push(Seq::<char>::empty()));
        } else {
            let q = sa + sb;
            assert(q.update(q.len() - 1, q.last().push(b.last())) =~= sa + sb.update(sb.len() - 1, sb.last().push(b.last())));
        }
    }
}

/// A text without the separator is one piece.
pub proof fn lemma_split_single(a: Seq<char>, c: char)
    requires
        !a.contains(c),
    ensures
        split(a, c) == seq![a],
    decreases a.len(),
{
    if a.len() > 0 {
        assert(!a.drop_last().contains(c)) by {
            if a.drop_last().contains(c) {
                let i = choose|i: int| 0 <= i < a.drop_last().len() && a.drop_last()[i] == c;
                assert(a[i] == c);
            }
        }
        lemma_split_single(a.drop_last(), c);
        assert(a.last() != c) by {
            assert(a[a.len() - 1] == a.last());
        }
        assert(a.drop_last().push(a.last()) =~= a);
        assert(seq![a.drop_last()].update(0, a.drop_last().push(a.last())) =~= seq![a]);
    } else {
        assert(a =~= Seq::<char>::empty());
    }
}

/// A number's decimal digits start with a digit.
pub proof fn lemma_decimal_digit(n: nat)
    ensures
        decimal(n).len() > 0,
        is_digit(decimal(n)[0]),
    decreases n,
{
    if n >= 10 {
        lemma_decimal_digit(n / 10);
        assert(decimal(n)[0] == decimal(n / 10)[0]);
    }
}

pub proof fn lemma_split_len(s: Seq<char>, c: char)
    ensures
        split(s, c).len() <= s.len() + 1,
        split(s, c).len() >= 1,
        s.len() > 0 && s.last() != c ==> split(s, c).len() <= s.len(),
    decreases s.len(),
{
    if s.len() > 0 {
        lemma_split_len(s.drop_last(), c);
    }
}

pub proof fn lemma_lines_len(s: Seq<char>)
    ensures
        lines(s).len() <= s.len(),
{
    if s.len() > 0 {
        lemma_split_len(s, '\n');
    }
}

} // verus!
