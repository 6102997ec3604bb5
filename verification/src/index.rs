//! The markdown indexes a session keeps (`TURNS.md`, `SCENES.md`), the
//! names of turn files and meta logs, and the summary line a turn log holds.
use vstd::prelude::*;

use crate::text::{
    chars_eq, chars_eq_str, split, strip_cr, contains, contains_chars, decimal, deep, first_index, join,
    join_strings, lemma_first_index_all, lemma_first_index_step, lemma_views_push, lines,
    lines_chars, owned, push_u64, lemma_lines_len, parse_usize, parse_usize_chars, push_int, push_str, replace_all,
    replace_str, splitn, splitn_chars, starts_with, string_of, strip_prefix_chars, take_chars,
    take_prefix, to_chars, trim, trim_chars, views,
};

verus! {

/// The meta-log name of an output file: every `.md` replaced by `.log`.
pub open spec fn log_name(out_file: Seq<char>) -> Seq<char> {
    replace_all(out_file, ".md"@, ".log"@)
}

pub fn meta_log_name(out_file: &str) -> (r: String)
    ensures
        r@ == log_name(out_file@),
{
    proof {
        reveal_strlit(".md");
    }
    replace_str(out_file, ".md", ".log")
}

// ─────────────────────────────── TURNS.md ──────────────────────────────────

/// A data row of the turn index (not its header row or separator).
pub open spec fn is_turn_row(l: Seq<char>) -> bool {
    starts_with(l, "| "@) && !starts_with(l, "| #"@) && !starts_with(l, "|---"@)
}

pub open spec fn count_turn_rows(ls: Seq<Seq<char>>) -> nat
    decreases ls.len(),
{
    if ls.len() == 0 {
        0
    } else {
        count_turn_rows(ls.drop_last()) + if is_turn_row(ls.last()) { 1nat } else { 0nat }
    }
}

/// The number of the next turn: one more than the data rows of the index.
pub open spec fn next_turn_number(existing: Seq<char>) -> nat {
    count_turn_rows(lines(existing)) + 1
}

fn starts_with_str(v: &Vec<char>, p: &str) -> (r: bool)
    ensures
        r == starts_with(v@, p@),
{
    strip_prefix_chars(v, p).is_some()
}

/// One more than the number of data rows in an existing turn index.
pub fn turn_number(existing: &str) -> (r: usize)
    requires
        existing@.len() < usize::MAX,
    ensures
        r == next_turn_number(existing@),
{
    let v = to_chars(existing);
    let ls = lines_chars(&v);
    let ghost all = deep(ls@);
    proof {
        lemma_lines_len(existing@);
    }
    let mut n: usize = 0;
    let mut i: usize = 0;
    assert(all.take(0) =~= Seq::<Seq<char>>::empty());
    while i < ls.len()
        invariant
            i <= ls.len(),
            all == deep(ls@),
            n == count_turn_rows(all.take(i as int)),
            n <= i,
        decreases ls.len() - i,
    {
        assert(all.take(i + 1).drop_last() =~= all.take(i as int));
        assert(all.take(i + 1).last() == ls@[i as int]@);
        let l = &ls[i];
        if starts_with_str(l, "| ") && !starts_with_str(l, "| #") && !starts_with_str(l, "|---") {
            n = n + 1;
        }
        i += 1;
    }
    assert(all.take(ls.len() as int) =~= all);
    n + 1
}

/// `| {n} | {time} | [{out}]({out}) | [.meta/{log}](.meta/{log}) | {dice} | {summary} |` and a newline.
pub open spec fn turn_row(n: nat, time: Seq<char>, out_file: Seq<char>, dice: Seq<char>, summary: Seq<char>) -> Seq<char> {
    let log = log_name(out_file);
    "| "@ + decimal(n) + " | "@ + time + " | ["@ + out_file + "]("@ + out_file + ") | [.meta/"@ + log
        + "](.meta/"@ + log + ") | "@ + dice + " | "@ + summary + " |\n"@
}

/// The lines of a text ending in a newline, then more text, are the lines
/// of each.
proof fn lemma_lines_concat(a: Seq<char>, b: Seq<char>)
    requires
        a.len() == 0 || a.last() == '\n',
    ensures
        lines(a + b) == lines(a) + lines(b),
{
    if a.len() == 0 {
        assert(a + b =~= b);
        assert(lines(a) =~= Seq::<Seq<char>>::empty());
    } else if b.len() == 0 {
        assert(a + b =~= a);
    } else {
        let a0 = a.drop_last();
        assert(a =~= a0 + seq!['\n'] + Seq::<char>::empty());
        assert(a + b =~= a0 + seq!['\n'] + b);
        crate::text::lemma_split_concat(a0, Seq::<char>::empty(), '\n');
        crate::text::lemma_split_concat(a0, b, '\n');
        let sa = crate::text::split(a0, '\n');
        let sb = crate::text::split(b, '\n');
        crate::text::lemma_split_len(b, '\n');
        assert(crate::text::split(Seq::<char>::empty(), '\n') =~= seq![Seq::<char>::empty()]);
        assert(crate::text::split(a, '\n').drop_last() =~= sa);
        assert((a + b).last() == b.last());
        assert((sa + sb).drop_last() =~= sa + sb.drop_last());
        assert((sa + sb).last() == sb.last());
        let f = |l: Seq<char>| crate::text::strip_cr(l);
        assert((sa + sb.drop_last()).map_values(f) =~= sa.map_values(f) + sb.drop_last().map_values(f));
    }
}

/// Appending a one-line turn row to the index raises the next turn number by one.
pub proof fn law_appended_row_counts(existing: Seq<char>, n: nat, time: Seq<char>, out_file: Seq<char>, dice: Seq<char>, summary: Seq<char>)
    requires
        existing.len() == 0 || existing.last() == '\n',
        !turn_row(n, time, out_file, dice, summary).drop_last().contains('\n'),
    ensures
        next_turn_number(existing + turn_row(n, time, out_file, dice, summary)) == next_turn_number(existing) + 1,
{
    reveal_strlit("| ");
    reveal_strlit("| #");
    reveal_strlit("|---");
    reveal_strlit(" |\n");
    let row = turn_row(n, time, out_file, dice, summary);
    let r0 = row.drop_last();
    lemma_lines_concat(existing, row);
    assert(row =~= r0 + seq!['\n'] + Seq::<char>::empty());
    crate::text::lemma_split_concat(r0, Seq::<char>::empty(), '\n');
    crate::text::lemma_split_single(r0, '\n');
    assert(crate::text::split(Seq::<char>::empty(), '\n') =~= seq![Seq::<char>::empty()]);
    assert(row.last() == '\n');
    assert(r0.last() == '|');
    assert(lines(row) =~= seq![r0]);
    assert(row.subrange(0, 2) =~= "| "@);
    assert(r0.subrange(0, 2) =~= "| "@);
    crate::text::lemma_decimal_digit(n);
    assert(r0[2] == decimal(n)[0]);
    assert(is_turn_row(r0)) by {
        if starts_with(r0, "| #"@) {
            assert(r0.subrange(0, 3)[2] == r0[2]);
        }
        if starts_with(r0, "|---"@) {
            assert(r0.subrange(0, 4)[1] == r0[1]);
        }
    }
    let ls = lines(existing);
    assert(lines(existing + row) == ls + seq![r0]);
    assert((ls + seq![r0]).drop_last() =~= ls);
    assert((ls + seq![r0]).last() == r0);
}

/// The title and column headers of a new turn index.
pub open spec fn turn_index_header(campaign: Seq<char>, session: Seq<char>) -> Seq<char> {
    "# "@ + campaign + " / "@ + session + " — Turn Index\n\n"@
        + "| # | Time (UTC) | Data plane | Control plane | Dice | Summary |\n"@
        + "|---|-----------|-----------|--------------|------|---------|\n"@
}

pub fn turn_row_text(n: usize, time: &str, out_file: &str, dice: &str, summary: &str) -> (r: String)
    ensures
        r@ == turn_row(n as nat, time@, out_file@, dice@, summary@),
{
    let log = meta_log_name(out_file);
    let mut r = owned("| ");
    push_u64(&mut r, n as u64);
    push_str(&mut r, " | ");
    push_str(&mut r, time);
    push_str(&mut r, " | [");
    push_str(&mut r, out_file);
    push_str(&mut r, "](");
    push_str(&mut r, out_file);
    push_str(&mut r, ") | [.meta/");
    push_str(&mut r, log.as_str());
    push_str(&mut r, "](.meta/");
    push_str(&mut r, log.as_str());
    push_str(&mut r, ") | ");
    push_str(&mut r, dice);
    push_str(&mut r, " | ");
    push_str(&mut r, summary);
    push_str(&mut r, " |\n");
    assert(r@ =~= turn_row(n as nat, time@, out_file@, dice@, summary@));
    r
}

pub fn turn_index_header_text(campaign: &str, session: &str) -> (r: String)
    ensures
        r@ == turn_index_header(campaign@, session@),
{
    let mut r = owned("# ");
    push_str(&mut r, campaign);
    push_str(&mut r, " / ");
    push_str(&mut r, session);
    push_str(&mut r, " — Turn Index\n\n");
    push_str(&mut r, "| # | Time (UTC) | Data plane | Control plane | Dice | Summary |\n");
    push_str(&mut r, "|---|-----------|-----------|--------------|------|---------|\n");
    assert(r@ =~= turn_index_header(campaign@, session@));
    r
}

/// How to update the turn index after a turn.
pub struct TurnIndexUpdate {
    /// The turn's number.
    pub turn_num: usize,
    /// Whether the file is written anew (else the text is appended).
    pub overwrite: bool,
    /// The text to write or append.
    pub text: String,
}

/// The index update for a turn: an empty index is written anew with its
/// header and turn 1; otherwise the next row is appended.
pub fn turn_index_update(
    existing: &str,
    campaign: &str,
    session: &str,
    time: &str,
    out_file: &str,
    dice: &str,
    summary: &str,
) -> (r: TurnIndexUpdate)
    requires
        existing@.len() < usize::MAX,
    ensures
        existing@.len() == 0 ==> r.turn_num == 1 && r.overwrite
            && r.text@ == turn_index_header(campaign@, session@) + turn_row(1, time@, out_file@, dice@, summary@),
        existing@.len() > 0 ==> r.turn_num == next_turn_number(existing@) && !r.overwrite
            && r.text@ == turn_row(r.turn_num as nat, time@, out_file@, dice@, summary@),
{
    if existing.is_empty() {
        let mut text = turn_index_header_text(campaign, session);
        let row = turn_row_text(1, time, out_file, dice, summary);
        push_str(&mut text, row.as_str());
        TurnIndexUpdate { turn_num: 1, overwrite: true, text }
    } else {
        let n = turn_number(existing);
        let text = turn_row_text(n, time, out_file, dice, summary);
        TurnIndexUpdate { turn_num: n, overwrite: false, text }
    }
}

/// `<!-- Turn {n} | {session}/{out} | {time} UTC | stats: .meta/{log} -->` and a newline.
pub open spec fn breadcrumb(n: nat, session: Seq<char>, out_file: Seq<char>, time: Seq<char>) -> Seq<char> {
    "<!-- Turn "@ + decimal(n) + " | "@ + session + "/"@ + out_file + " | "@ + time + " UTC | stats: .meta/"@
        + log_name(out_file) + " -->\n"@
}

pub fn breadcrumb_text(n: usize, session: &str, out_file: &str, time: &str) -> (r: String)
    ensures
        r@ == breadcrumb(n as nat, session@, out_file@, time@),
{
    let log = meta_log_name(out_file);
    let mut r = owned("<!-- Turn ");
    push_u64(&mut r, n as u64);
    push_str(&mut r, " | ");
    push_str(&mut r, session);
    push_str(&mut r, "/");
    push_str(&mut r, out_file);
    push_str(&mut r, " | ");
    push_str(&mut r, time);
    push_str(&mut r, " UTC | stats: .meta/");
    push_str(&mut r, log.as_str());
    push_str(&mut r, " -->\n");
    assert(r@ =~= breadcrumb(n as nat, session@, out_file@, time@));
    r
}

/// The first line of a text, at most 120 characters of it.
pub open spec fn first_line_short(s: Seq<char>) -> Seq<char> {
    let ls = lines(s);
    if ls.len() == 0 { Seq::empty() } else { take_chars(ls[0], 120) }
}

pub fn summary_short(s: &str) -> (r: String)
    ensures
        r@ == first_line_short(s@),
{
    let v = to_chars(s);
    let ls = lines_chars(&v);
    if ls.len() == 0 {
        String::new()
    } else {
        let first = string_of(&ls[0]);
        take_prefix(first.as_str(), 120)
    }
}

// ─────────────────────────────── turn logs ─────────────────────────────────

pub open spec fn has_marker(m: Seq<char>) -> spec_fn(Seq<char>) -> bool {
    |l: Seq<char>| contains(l, m)
}

pub open spec fn not_blank() -> spec_fn(Seq<char>) -> bool {
    |l: Seq<char>| trim(l).len() > 0
}

/// The first non-blank line after the first line holding `📋 Summary`, trimmed.
pub open spec fn logged_summary(log: Seq<char>) -> Option<Seq<char>> {
    let ls = lines(log);
    match first_index(ls, has_marker("📋 Summary"@)) {
        None => None,
        Some(i) => {
            let rest = ls.skip(i + 1);
            match first_index(rest, not_blank()) {
                Some(j) => Some(trim(rest[j])),
                None => None,
            }
        },
    }
}

/// Index of the first line containing `marker`.
fn find_line(ls: &Vec<Vec<char>>, marker: &Vec<char>) -> (r: Option<usize>)
    ensures
        match r {
            Some(i) => first_index(deep(ls@), has_marker(marker@)) == Some(i as int) && i < ls.len(),
            None => first_index(deep(ls@), has_marker(marker@)) is None,
        },
{
    let ghost all = deep(ls@);
    let ghost p = has_marker(marker@);
    let mut i: usize = 0;
    assert(all.take(0) =~= Seq::<Seq<char>>::empty());
    while i < ls.len()
        invariant
            i <= ls.len(),
            all == deep(ls@),
            p == has_marker(marker@),
            first_index(all.take(i as int), p) is None,
        decreases ls.len() - i,
    {
        proof {
            lemma_first_index_step(all, p, i as int);
        }
        if contains_chars(&ls[i], marker) {
            return Some(i);
        }
        i += 1;
    }
    proof {
        lemma_first_index_all(all, p);
    }
    None
}

/// The summary a turn log already holds, if any.
pub fn extract_logged_summary(log: &str) -> (r: Option<String>)
    ensures
        match r {
            Some(s) => logged_summary(log@) == Some(s@),
            None => logged_summary(log@) is None,
        },
{
    let v = to_chars(log);
    let ls = lines_chars(&v);
    let ghost all = deep(ls@);
    let marker = to_chars("📋 Summary");
    let i = match find_line(&ls, &marker) {
        Some(i) => i,
        None => return None,
    };
    let ghost rest = all.skip(i + 1);
    let ghost q = not_blank();
    let mut j: usize = i + 1;
    assert(rest.take(0) =~= Seq::<Seq<char>>::empty());
    while j < ls.len()
        invariant
            i < ls.len(),
            i + 1 <= j <= ls.len(),
            all == deep(ls@),
            all == lines(log@),
            first_index(all, has_marker("📋 Summary"@)) == Some(i as int),
            rest == all.skip(i + 1),
            q == not_blank(),
            first_index(rest.take(j - i - 1), q) is None,
        decreases ls.len() - j,
    {
        proof {
            lemma_first_index_step(rest, q, j - i - 1);
            assert(rest[j - i - 1] == ls@[j as int]@);
        }
        let t = trim_chars(&ls[j]);
        if t.len() > 0 {
            return Some(string_of(&t));
        }
        j += 1;
    }
    proof {
        assert(rest.take(j - i - 1) =~= rest);
    }
    None
}

/// The first non-blank line after the first line holding `📋 Summary`, as
/// it stands (not trimmed).
pub open spec fn logged_summary_line(log: Seq<char>) -> Option<Seq<char>> {
    let ls = lines(log);
    match first_index(ls, has_marker("📋 Summary"@)) {
        None => None,
        Some(i) => {
            let rest = ls.skip(i + 1);
            match first_index(rest, not_blank()) {
                Some(j) => Some(rest[j]),
                None => None,
            }
        },
    }
}

/// The logged summary line of a turn log, untrimmed (see
/// [`logged_summary_line`]).
pub fn logged_summary_line_of(log: &str) -> (r: Option<String>)
    ensures
        match r {
            Some(s) => logged_summary_line(log@) == Some(s@),
            None => logged_summary_line(log@) is None,
        },
{
    let v = to_chars(log);
    let ls = lines_chars(&v);
    let ghost all = deep(ls@);
    let marker = to_chars("📋 Summary");
    let i = match find_line(&ls, &marker) {
        Some(i) => i,
        None => return None,
    };
    let ghost rest = all.skip(i + 1);
    let ghost q = not_blank();
    let mut j: usize = i + 1;
    assert(rest.take(0) =~= Seq::<Seq<char>>::empty());
    while j < ls.len()
        invariant
            i < ls.len(),
            i + 1 <= j <= ls.len(),
            all == deep(ls@),
            all == lines(log@),
            first_index(all, has_marker("📋 Summary"@)) == Some(i as int),
            rest == all.skip(i + 1),
            q == not_blank(),
            first_index(rest.take(j - i - 1), q) is None,
        decreases ls.len() - j,
    {
        proof {
            lemma_first_index_step(rest, q, j - i - 1);
            assert(rest[j - i - 1] == ls@[j as int]@);
        }
        let t = trim_chars(&ls[j]);
        if t.len() > 0 {
            return Some(string_of(&ls[j]));
        }
        j += 1;
    }
    proof {
        assert(rest.take(j - i - 1) =~= rest);
    }
    None
}

// ─────────────────────────────── SCENES.md ─────────────────────────────────

/// Header lines and data rows of a scene index: rows beginning `| ` after
/// the first separator line (`|---`) are data, every other line header.
pub open spec fn split_scene_index(ls: Seq<Seq<char>>) -> (Seq<Seq<char>>, Seq<Seq<char>>, bool)
    decreases ls.len(),
{
    if ls.len() == 0 {
        (Seq::empty(), Seq::empty(), false)
    } else {
        let prev = split_scene_index(ls.drop_last());
        let l = ls.last();
        if starts_with(l, "|---"@) {
            (prev.0.push(l), prev.1, true)
        } else if prev.2 && starts_with(l, "| "@) {
            (prev.0, prev.1.push(l), prev.2)
        } else {
            (prev.0.push(l), prev.1, prev.2)
        }
    }
}

proof fn lemma_split_scene_len(ls: Seq<Seq<char>>)
    ensures
        split_scene_index(ls).0.len() + split_scene_index(ls).1.len() == ls.len(),
    decreases ls.len(),
{
    if ls.len() > 0 {
        lemma_split_scene_len(ls.drop_last());
    }
}

/// The scene column of a row.
pub open spec fn scene_cell(row: Seq<char>) -> Option<Seq<char>> {
    let p = splitn(row, '|', 6);
    if p.len() > 2 { Some(trim(p[2])) } else { None }
}

/// The number column of a row, when it is a number.
pub open spec fn number_cell(row: Seq<char>) -> Option<usize> {
    let p = splitn(row, '|', 6);
    if p.len() > 1 { parse_usize(trim(p[1])) } else { None }
}

pub open spec fn row_of_scene(scene: Seq<char>) -> spec_fn(Seq<char>) -> bool {
    |r: Seq<char>| scene_cell(r) == Some(scene)
}

/// `| {n} | {scene} | {time} | {turns} | [{out}]({scene}/{out}) — {one_liner} |`.
pub open spec fn scene_row(n: nat, scene: Seq<char>, time: Seq<char>, turns: nat, out_file: Seq<char>, one_liner: Seq<char>) -> Seq<char> {
    "| "@ + decimal(n) + " | "@ + scene + " | "@ + time + " | "@ + decimal(turns) + " | ["@ + out_file
        + "]("@ + scene + "/"@ + out_file + ") — "@ + one_liner + " |"@
}

/// The data rows after recording `key` as `row`: the first row naming the
/// key is replaced, else `row` is appended.
pub open spec fn upserted_data(data: Seq<Seq<char>>, key: Seq<char>, row: Seq<char>) -> Seq<Seq<char>> {
    match first_index(data, row_of_scene(key)) {
        Some(i) => data.update(i, row),
        None => data.push(row),
    }
}

/// Recording a key keeps every other row where it was and in order, and
/// when at most one row named the key before and the new row names it,
/// exactly one row names it after: the old one's place, else the end.
pub proof fn law_upsert_keeps_one_row_per_key(data: Seq<Seq<char>>, key: Seq<char>, row: Seq<char>)
    requires
        row_of_scene(key)(row),
        forall|i: int, j: int|
            0 <= i < j < data.len() && row_of_scene(key)(#[trigger] data[i]) ==> !row_of_scene(key)(#[trigger] data[j]),
    ensures
        ({
            let d2 = upserted_data(data, key, row);
            &&& d2.len() == data.len() + (if first_index(data, row_of_scene(key)) is Some { 0int } else { 1int })
            &&& forall|k: int| 0 <= k < data.len() && !row_of_scene(key)(data[k]) ==> #[trigger] d2[k] == data[k]
            &&& forall|i: int, j: int|
                0 <= i < d2.len() && 0 <= j < d2.len() && row_of_scene(key)(#[trigger] d2[i]) && row_of_scene(key)(
                    #[trigger] d2[j],
                ) ==> i == j
            &&& exists|i: int| 0 <= i < d2.len() && #[trigger] d2[i] == row
        }),
{
    let p = row_of_scene(key);
    crate::text::lemma_first_index(data, p);
    let d2 = upserted_data(data, key, row);
    match first_index(data, p) {
        Some(w) => {
            assert(d2[w] == row);
            assert forall|i: int, j: int|
                0 <= i < d2.len() && 0 <= j < d2.len() && p(#[trigger] d2[i]) && p(#[trigger] d2[j]) implies i == j by {
                if i != w {
                    assert(d2[i] == data[i]);
                    if i < w {
                        assert(false);
                    } else {
                        assert(!p(data[i]));
                    }
                }
                if j != w {
                    assert(d2[j] == data[j]);
                    if j < w {
                        assert(false);
                    } else {
                        assert(!p(data[j]));
                    }
                }
            }
        },
        None => {
            assert(d2[data.len() as int] == row);
            assert forall|i: int, j: int|
                0 <= i < d2.len() && 0 <= j < d2.len() && p(#[trigger] d2[i]) && p(#[trigger] d2[j]) implies i == j by {
                if i < data.len() {
                    assert(d2[i] == data[i]);
                }
                if j < data.len() {
                    assert(d2[j] == data[j]);
                }
            }
        },
    }
}

/// An index after recording `key`: a new index holds `header` and the key
/// as row 1; otherwise the key's row (the first whose key column names it)
/// is replaced, keeping its number, or a row numbered one past the data
/// rows is appended. Header lines are kept in place.
pub open spec fn upsert_row(
    existing: Seq<char>,
    header_text: Seq<char>,
    key: Seq<char>,
    time: Seq<char>,
    count: nat,
    out_file: Seq<char>,
    one_liner: Seq<char>,
) -> Seq<char> {
    if existing.len() == 0 {
        header_text + scene_row(1, key, time, count, out_file, one_liner) + "\n"@
    } else {
        let parts = split_scene_index(lines(existing));
        let header = parts.0;
        let data = parts.1;
        let idx = first_index(data, row_of_scene(key));
        let n: nat = match idx {
            Some(i) => match number_cell(data[i]) {
                Some(k) => k as nat,
                None => data.len() + 1,
            },
            None => data.len() + 1,
        };
        let row = scene_row(n, key, time, count, out_file, one_liner);
        let data2 = upserted_data(data, key, row);
        join(header, "\n"@) + "\n"@ + join(data2, "\n"@) + "\n"@
    }
}

// ─────────────────────────────── re-reading an index ──────────────────────

/// No character of `s` is `c`.
pub open spec fn free_of(s: Seq<char>, c: char) -> bool {
    forall|i: int| 0 <= i < s.len() ==> s[i] != c
}

/// A line as the index keeps it: no line break in it, no carriage return
/// at its end.
pub open spec fn plain_line(s: Seq<char>) -> bool {
    free_of(s, '\n') && !(s.len() > 0 && s.last() == '\r')
}

proof fn lemma_split_nonempty(s: Seq<char>, c: char)
    ensures
        split(s, c).len() >= 1,
    decreases s.len(),
{
    if s.len() > 0 {
        lemma_split_nonempty(s.drop_last(), c);
    }
}

proof fn lemma_split_append_plain(x: Seq<char>, y: Seq<char>, c: char)
    requires
        free_of(y, c),
    ensures
        split(x + y, c) == split(x, c).update(split(x, c).len() - 1, split(x, c).last() + y),
    decreases y.len(),
{
    lemma_split_nonempty(x, c);
    if y.len() == 0 {
        assert(x + y =~= x);
        assert(split(x, c).last() + y =~= split(x, c).last());
        assert(split(x, c).update(split(x, c).len() - 1, split(x, c).last()) =~= split(x, c));
    } else {
        let y1 = y.drop_last();
        let d = y.last();
        assert(free_of(y1, c)) by {
            assert forall|i: int| 0 <= i < y1.len() implies y1[i] != c by {
                assert(y1[i] == y[i]);
            }
        }
        lemma_split_append_plain(x, y1, c);
        assert((x + y).drop_last() =~= x + y1);
        assert((x + y).last() == d);
        assert(d != c);
        let p = split(x + y1, c);
        lemma_split_nonempty(x + y1, c);
        assert(split(x + y, c) == p.update(p.len() - 1, p.last().push(d)));
        assert(p.last() == split(x, c).last() + y1);
        assert(p.last().push(d) =~= split(x, c).last() + y);
        assert(split(x + y, c) =~= split(x, c).update(split(x, c).len() - 1, split(x, c).last() + y));
    }
}

proof fn lemma_split_sep(x: Seq<char>, y: Seq<char>, c: char)
    requires
        free_of(y, c),
    ensures
        split(x + seq![c] + y, c) == split(x, c).push(y),
{
    let xc = x.push(c);
    assert(x + seq![c] =~= xc);
    assert(xc.drop_last() =~= x);
    assert(split(xc, c) == split(x, c).push(Seq::<char>::empty()));
    lemma_split_append_plain(xc, y, c);
    assert(Seq::<char>::empty() + y =~= y);
    assert(split(x, c).push(Seq::<char>::empty()).update(split(x, c).len() as int, y) =~= split(x, c).push(y));
}

proof fn lemma_split_join(ps: Seq<Seq<char>>, c: char)
    requires
        ps.len() >= 1,
        forall|i: int| 0 <= i < ps.len() ==> free_of(#[trigger] ps[i], c),
    ensures
        split(join(ps, seq![c]), c) == ps,
    decreases ps.len(),
{
    if ps.len() == 1 {
        lemma_split_append_plain(Seq::<char>::empty(), ps[0], c);
        assert(Seq::<char>::empty() + ps[0] =~= ps[0]);
        assert(Seq::<char>::empty() + ps[0] =~= ps[0]);
        assert(split(Seq::<char>::empty(), c) =~= seq![Seq::<char>::empty()]);
        assert(seq![Seq::<char>::empty()].update(0, Seq::<char>::empty() + ps[0]) =~= ps);
    } else {
        let q = ps.drop_last();
        assert forall|i: int| 0 <= i < q.len() implies free_of(#[trigger] q[i], c) by {
            assert(q[i] == ps[i]);
        }
        lemma_split_join(q, c);
        assert(free_of(ps.last(), c));
        lemma_split_sep(join(q, seq![c]), ps.last(), c);
        assert(q.push(ps.last()) =~= ps);
    }
}

proof fn lemma_join_concat(a: Seq<Seq<char>>, b: Seq<Seq<char>>, sep: Seq<char>)
    requires
        a.len() >= 1,
        b.len() >= 1,
    ensures
        join(a + b, sep) == join(a, sep) + sep + join(b, sep),
    decreases b.len(),
{
    if b.len() == 1 {
        assert((a + b).drop_last() =~= a);
        assert((a + b).last() == b[0]);
    } else {
        let b1 = b.drop_last();
        lemma_join_concat(a, b1, sep);
        assert((a + b).drop_last() =~= a + b1);
        assert((a + b).last() == b.last());
        assert(join(a + b, sep) == join(a + b1, sep) + sep + b.last());
        assert(join(b, sep) == join(b1, sep) + sep + b.last());
        assert(join(a, sep) + sep + join(b1, sep) + sep + b.last() =~= join(a, sep) + sep + (join(b1, sep) + sep + b.last()));
    }
}

/// Reading back a text made of plain lines, each ended by a line break,
/// gives those lines.
proof fn lemma_lines_of_joined(ps: Seq<Seq<char>>)
    requires
        ps.len() >= 1,
        forall|i: int| 0 <= i < ps.len() ==> plain_line(#[trigger] ps[i]),
    ensures
        lines(join(ps, "\n"@) + "\n"@) == ps,
{
    reveal_strlit("\n");
    assert("\n"@ =~= seq!['\n']);
    assert forall|i: int| 0 <= i < ps.len() implies free_of(#[trigger] ps[i], '\n') by {
        assert(plain_line(ps[i]));
    }
    lemma_split_join(ps, '\n');
    let j = join(ps, seq!['\n']);
    let t = j + seq!['\n'];
    assert(t =~= j.push('\n'));
    assert(t.drop_last() =~= j);
    assert(split(t, '\n') == split(j, '\n').push(Seq::<char>::empty()));
    assert(split(t, '\n').drop_last() =~= ps);
    assert(ps.map_values(|l: Seq<char>| strip_cr(l)) =~= ps) by {
        assert forall|i: int| 0 <= i < ps.len() implies strip_cr(ps[i]) == ps[i] by {
            assert(plain_line(ps[i]));
        }
    }
}

proof fn lemma_split_pieces_free(s: Seq<char>, c: char)
    ensures
        forall|i: int| 0 <= i < split(s, c).len() ==> free_of(#[trigger] split(s, c)[i], c),
    decreases s.len(),
{
    if s.len() > 0 {
        lemma_split_pieces_free(s.drop_last(), c);
        lemma_split_nonempty(s.drop_last(), c);
        let p = split(s.drop_last(), c);
        if s.last() != c {
            assert forall|i: int| 0 <= i < split(s, c).len() implies free_of(#[trigger] split(s, c)[i], c) by {
                if i == p.len() - 1 {
                    let l = p.last().push(s.last());
                    assert(split(s, c)[i] == l);
                    assert forall|k: int| 0 <= k < l.len() implies l[k] != c by {
                        if k < p.last().len() {
                            assert(free_of(p[p.len() - 1], c));
                        }
                    }
                } else {
                    assert(split(s, c)[i] == p[i]);
                }
            }
        } else {
            assert forall|i: int| 0 <= i < split(s, c).len() implies free_of(#[trigger] split(s, c)[i], c) by {
                if i < p.len() {
                    assert(split(s, c)[i] == p[i]);
                }
            }
        }
    }
}

/// The lines of a text hold no line break.
proof fn lemma_lines_free(s: Seq<char>)
    ensures
        forall|i: int| 0 <= i < lines(s).len() ==> free_of(#[trigger] lines(s)[i], '\n'),
{
    if s.len() > 0 {
        lemma_split_pieces_free(s, '\n');
        let p = split(s, '\n');
        lemma_split_nonempty(s, '\n');
        assert forall|i: int| 0 <= i < lines(s).len() implies free_of(#[trigger] lines(s)[i], '\n') by {
            assert(free_of(p[i], '\n'));
            let l = lines(s)[i];
            if i < p.len() - 1 {
                assert(l == strip_cr(p[i]));
                assert forall|k: int| 0 <= k < l.len() implies l[k] != '\n' by {
                    assert(l[k] == p[i][k]);
                }
            } else {
                assert(l == p[i]);
            }
        }
    }
}

/// What splitting an index leaves as header reads back as header alone.
proof fn lemma_header_alone(ls: Seq<Seq<char>>)
    ensures
        split_scene_index(split_scene_index(ls).0) == (split_scene_index(ls).0, Seq::<Seq<char>>::empty(), split_scene_index(ls).2),
        forall|i: int| 0 <= i < split_scene_index(ls).1.len() ==> starts_with(#[trigger] split_scene_index(ls).1[i], "| "@),
    decreases ls.len(),
{
    if ls.len() > 0 {
        let q = ls.drop_last();
        lemma_header_alone(q);
        let prev = split_scene_index(q);
        let l = ls.last();
        let h = prev.0;
        if starts_with(l, "|---"@) {
            assert(h.push(l).drop_last() =~= h);
        } else if prev.2 && starts_with(l, "| "@) {
        } else {
            assert(h.push(l).drop_last() =~= h);
        }
    }
}

/// Data rows after a header that has its separator read back as data.
proof fn lemma_rows_after_header(h: Seq<Seq<char>>, e: Seq<Seq<char>>)
    requires
        split_scene_index(h) == (h, Seq::<Seq<char>>::empty(), true),
        forall|i: int| 0 <= i < e.len() ==> starts_with(#[trigger] e[i], "| "@),
    ensures
        split_scene_index(h + e) == (h, e, true),
    decreases e.len(),
{
    reveal_strlit("| ");
    reveal_strlit("|---");
    if e.len() == 0 {
        assert(h + e =~= h);
    } else {
        let e1 = e.drop_last();
        lemma_rows_after_header(h, e1);
        assert((h + e).drop_last() =~= h + e1);
        let l = e.last();
        assert(starts_with(l, "| "@));
        assert(!starts_with(l, "|---"@)) by {
            assert(l.subrange(0, 2)[1] == l[1]);
            assert("| "@[1] == ' ');
            if starts_with(l, "|---"@) {
                assert(l.subrange(0, 4)[1] == l[1]);
                assert("|---"@[1] == '-');
            }
        }
        assert(e1.push(l) =~= e);
    }
}

proof fn lemma_free_concat(a: Seq<char>, b: Seq<char>, c: char)
    requires
        free_of(a, c),
        free_of(b, c),
    ensures
        free_of(a + b, c),
{
    assert forall|i: int| 0 <= i < (a + b).len() implies (a + b)[i] != c by {
        if i < a.len() {
            assert((a + b)[i] == a[i]);
        } else {
            assert((a + b)[i] == b[i - a.len()]);
        }
    }
}

proof fn lemma_decimal_free(n: nat)
    ensures
        free_of(decimal(n), '\n'),
    decreases n,
{
    if n >= 10 {
        lemma_decimal_free(n / 10);
        let d = decimal(n / 10);
        let ch = ((n % 10) + '0' as nat) as char;
        assert(ch != '\n');
        assert forall|i: int| 0 <= i < decimal(n).len() implies decimal(n)[i] != '\n' by {
            if i < d.len() {
                assert(decimal(n)[i] == d[i]);
            }
        }
    }
}

proof fn lemma_scene_row_plain(n: nat, key: Seq<char>, time: Seq<char>, count: nat, out_file: Seq<char>, one_liner: Seq<char>)
    requires
        free_of(key, '\n'),
        free_of(time, '\n'),
        free_of(out_file, '\n'),
        free_of(one_liner, '\n'),
    ensures
        plain_line(scene_row(n, key, time, count, out_file, one_liner)),
        starts_with(scene_row(n, key, time, count, out_file, one_liner), "| "@),
{
    reveal_strlit("| ");
    reveal_strlit(" | ");
    reveal_strlit(" | [");
    reveal_strlit("](");
    reveal_strlit("/");
    reveal_strlit(") — ");
    reveal_strlit(" |");
    lemma_decimal_free(n);
    lemma_decimal_free(count);
    let r = scene_row(n, key, time, count, out_file, one_liner);
    let lits = seq!["| "@, " | "@, " | ["@, "]("@, "/"@, ") — "@, " |"@];
    assert forall|k: int| 0 <= k < lits.len() implies free_of(#[trigger] lits[k], '\n') by {}
    lemma_free_concat("| "@, decimal(n), '\n');
    lemma_free_concat("| "@ + decimal(n), " | "@, '\n');
    lemma_free_concat("| "@ + decimal(n) + " | "@, key, '\n');
    lemma_free_concat("| "@ + decimal(n) + " | "@ + key, " | "@, '\n');
    lemma_free_concat("| "@ + decimal(n) + " | "@ + key + " | "@, time, '\n');
    lemma_free_concat("| "@ + decimal(n) + " | "@ + key + " | "@ + time, " | "@, '\n');
    lemma_free_concat("| "@ + decimal(n) + " | "@ + key + " | "@ + time + " | "@, decimal(count), '\n');
    lemma_free_concat("| "@ + decimal(n) + " | "@ + key + " | "@ + time + " | "@ + decimal(count), " | ["@, '\n');
    lemma_free_concat("| "@ + decimal(n) + " | "@ + key + " | "@ + time + " | "@ + decimal(count) + " | ["@, out_file, '\n');
    lemma_free_concat("| "@ + decimal(n) + " | "@ + key + " | "@ + time + " | "@ + decimal(count) + " | ["@ + out_file, "]("@, '\n');
    lemma_free_concat("| "@ + decimal(n) + " | "@ + key + " | "@ + time + " | "@ + decimal(count) + " | ["@ + out_file + "]("@, key, '\n');
    lemma_free_concat("| "@ + decimal(n) + " | "@ + key + " | "@ + time + " | "@ + decimal(count) + " | ["@ + out_file + "]("@ + key, "/"@, '\n');
    lemma_free_concat("| "@ + decimal(n) + " | "@ + key + " | "@ + time + " | "@ + decimal(count) + " | ["@ + out_file + "]("@ + key + "/"@, out_file, '\n');
    lemma_free_concat("| "@ + decimal(n) + " | "@ + key + " | "@ + time + " | "@ + decimal(count) + " | ["@ + out_file + "]("@ + key + "/"@ + out_file, ") — "@, '\n');
    lemma_free_concat("| "@ + decimal(n) + " | "@ + key + " | "@ + time + " | "@ + decimal(count) + " | ["@ + out_file + "]("@ + key + "/"@ + out_file + ") — "@, one_liner, '\n');
    lemma_free_concat("| "@ + decimal(n) + " | "@ + key + " | "@ + time + " | "@ + decimal(count) + " | ["@ + out_file + "]("@ + key + "/"@ + out_file + ") — "@ + one_liner, " |"@, '\n');
    assert(r.last() == '|');
    assert(r.subrange(0, 2) =~= "| "@);
}

/// Re-reading an updated index gives back what was recorded: for an index
/// that has its separator line and whose lines end in no carriage return,
/// the rewritten text splits into the same header lines and exactly the
/// data rows [`upserted_data`] says (so one row per key, the others kept in
/// order), as long as the recorded fields hold no line break.
pub proof fn law_upserted_index_reads_back(
    existing: Seq<char>,
    header_text: Seq<char>,
    key: Seq<char>,
    time: Seq<char>,
    count: nat,
    out_file: Seq<char>,
    one_liner: Seq<char>,
)
    requires
        existing.len() > 0,
        split_scene_index(lines(existing)).2,
        forall|i: int| 0 <= i < lines(existing).len() ==> !(#[trigger] lines(existing)[i].len() > 0 && lines(existing)[i].last() == '\r'),
        free_of(key, '\n'),
        free_of(time, '\n'),
        free_of(out_file, '\n'),
        free_of(one_liner, '\n'),
    ensures
        ({
            let parts = split_scene_index(lines(existing));
            let data = parts.1;
            let n: nat = match first_index(data, row_of_scene(key)) {
                Some(i) => match number_cell(data[i]) {
                    Some(k) => k as nat,
                    None => data.len() + 1,
                },
                None => data.len() + 1,
            };
            let again = split_scene_index(lines(upsert_row(existing, header_text, key, time, count, out_file, one_liner)));
            &&& again.0 == parts.0
            &&& again.1 == upserted_data(data, key, scene_row(n, key, time, count, out_file, one_liner))
        }),
{
    let ls = lines(existing);
    let parts = split_scene_index(ls);
    let h = parts.0;
    let data = parts.1;
    lemma_header_alone(ls);
    lemma_split_scene_len(ls);
    let n: nat = match first_index(data, row_of_scene(key)) {
        Some(i) => match number_cell(data[i]) {
            Some(k) => k as nat,
            None => data.len() + 1,
        },
        None => data.len() + 1,
    };
    let row = scene_row(n, key, time, count, out_file, one_liner);
    lemma_scene_row_plain(n, key, time, count, out_file, one_liner);
    let d2 = upserted_data(data, key, row);
    crate::text::lemma_first_index(data, row_of_scene(key));
    // every line kept is plain
    lemma_lines_free(existing);
    assert(forall|i: int| 0 <= i < ls.len() ==> plain_line(#[trigger] ls[i]));
    lemma_header_membership(ls);
    assert forall|i: int| 0 <= i < h.len() implies plain_line(#[trigger] h[i]) by {
        let k = choose|k: int| 0 <= k < ls.len() && ls[k] == h[i];
        assert(plain_line(ls[k]));
    }
    assert forall|i: int| 0 <= i < d2.len() implies plain_line(#[trigger] d2[i]) && starts_with(d2[i], "| "@) by {
        match first_index(data, row_of_scene(key)) {
            Some(w) => {
                if i != w {
                    assert(d2[i] == data[i]);
                    let k = choose|k: int| 0 <= k < ls.len() && ls[k] == data[i];
                    assert(plain_line(ls[k]));
                }
            },
            None => {
                if i < data.len() {
                    assert(d2[i] == data[i]);
                    let k = choose|k: int| 0 <= k < ls.len() && ls[k] == data[i];
                    assert(plain_line(ls[k]));
                }
            },
        }
    }
    // the header holds the separator line, so it is not empty
    assert(h.len() >= 1) by {
        lemma_flag_has_header(ls);
    }
    assert(d2.len() >= 1);
    lemma_join_concat(h, d2, "\n"@);
    let all = h + d2;
    assert forall|i: int| 0 <= i < all.len() implies plain_line(#[trigger] all[i]) by {
        if i < h.len() {
            assert(all[i] == h[i]);
        } else {
            assert(all[i] == d2[i - h.len()]);
        }
    }
    lemma_lines_of_joined(all);
    let text = upsert_row(existing, header_text, key, time, count, out_file, one_liner);
    assert(text == join(h, "\n"@) + "\n"@ + join(d2, "\n"@) + "\n"@);
    assert(text == join(all, "\n"@) + "\n"@);
    lemma_rows_after_header(h, d2);
}

/// Each header line and each data row is one of the lines split.
proof fn lemma_header_membership(ls: Seq<Seq<char>>)
    ensures
        forall|i: int| 0 <= i < split_scene_index(ls).0.len() ==> exists|k: int| 0 <= k < ls.len() && ls[k] == #[trigger] split_scene_index(ls).0[i],
        forall|i: int| 0 <= i < split_scene_index(ls).1.len() ==> exists|k: int| 0 <= k < ls.len() && ls[k] == #[trigger] split_scene_index(ls).1[i],
    decreases ls.len(),
{
    if ls.len() > 0 {
        let q = ls.drop_last();
        lemma_header_membership(q);
        let prev = split_scene_index(q);
        let cur = split_scene_index(ls);
        let n = ls.len() - 1;
        assert forall|i: int| 0 <= i < cur.0.len() implies exists|k: int| 0 <= k < ls.len() && ls[k] == #[trigger] cur.0[i] by {
            if i < prev.0.len() {
                assert(cur.0[i] == prev.0[i]);
                let k = choose|k: int| 0 <= k < q.len() && q[k] == prev.0[i];
                assert(ls[k] == q[k]);
            } else {
                assert(cur.0[i] == ls[n]);
            }
        }
        assert forall|i: int| 0 <= i < cur.1.len() implies exists|k: int| 0 <= k < ls.len() && ls[k] == #[trigger] cur.1[i] by {
            if i < prev.1.len() {
                assert(cur.1[i] == prev.1[i]);
                let k = choose|k: int| 0 <= k < q.len() && q[k] == prev.1[i];
                assert(ls[k] == q[k]);
            } else {
                assert(cur.1[i] == ls[n]);
            }
        }
    }
}

/// Once the separator has been seen, the header holds at least that line.
proof fn lemma_flag_has_header(ls: Seq<Seq<char>>)
    ensures
        split_scene_index(ls).2 ==> split_scene_index(ls).0.len() >= 1,
    decreases ls.len(),
{
    if ls.len() > 0 {
        lemma_flag_has_header(ls.drop_last());
    }
}

/// The title and column headers of a new scene index.
pub open spec fn scene_index_header(campaign: Seq<char>, session: Seq<char>) -> Seq<char> {
    "# "@ + campaign + " / "@ + session + " — Scene Index\n\n"@
        + "| # | Scene | Time (UTC) | Turns | Summary |\n"@
        + "|---|-------|-----------|-------|---------|\n"@
}

/// The title and column headers of a new session index.
pub open spec fn session_index_header(campaign: Seq<char>) -> Seq<char> {
    "# "@ + campaign + " — Session Index\n\n"@
        + "| # | Session | Time (UTC) | Scenes | Summary |\n"@
        + "|---|---------|-----------|--------|---------|\n"@
}

/// The scene index of a session after recording a scene.
pub open spec fn upsert_scene(
    existing: Seq<char>,
    campaign: Seq<char>,
    session: Seq<char>,
    scene: Seq<char>,
    time: Seq<char>,
    turns: nat,
    out_file: Seq<char>,
    one_liner: Seq<char>,
) -> Seq<char> {
    upsert_row(existing, scene_index_header(campaign, session), scene, time, turns, out_file, one_liner)
}

/// The session index of a campaign after recording a session summary.
pub open spec fn upsert_session(
    existing: Seq<char>,
    campaign: Seq<char>,
    session: Seq<char>,
    time: Seq<char>,
    scenes: nat,
    out_file: Seq<char>,
    one_liner: Seq<char>,
) -> Seq<char> {
    upsert_row(existing, session_index_header(campaign), session, time, scenes, out_file, one_liner)
}

fn scene_row_text(n: usize, scene: &str, time: &str, turns: usize, out_file: &str, one_liner: &str) -> (r: String)
    ensures
        r@ == scene_row(n as nat, scene@, time@, turns as nat, out_file@, one_liner@),
{
    let mut r = owned("| ");
    push_u64(&mut r, n as u64);
    push_str(&mut r, " | ");
    push_str(&mut r, scene);
    push_str(&mut r, " | ");
    push_str(&mut r, time);
    push_str(&mut r, " | ");
    push_u64(&mut r, turns as u64);
    push_str(&mut r, " | [");
    push_str(&mut r, out_file);
    push_str(&mut r, "](");
    push_str(&mut r, scene);
    push_str(&mut r, "/");
    push_str(&mut r, out_file);
    push_str(&mut r, ") — ");
    push_str(&mut r, one_liner);
    push_str(&mut r, " |");
    assert(r@ =~= scene_row(n as nat, scene@, time@, turns as nat, out_file@, one_liner@));
    r
}

fn scene_cell_of(row: &Vec<char>) -> (r: Option<Vec<char>>)
    ensures
        match r {
            Some(c) => scene_cell(row@) == Some(c@),
            None => scene_cell(row@) is None,
        },
{
    let p = splitn_chars(row, '|', 6);
    if p.len() > 2 {
        Some(trim_chars(&p[2]))
    } else {
        None
    }
}

fn find_scene_row(data: &Vec<Vec<char>>, scene: &str) -> (r: Option<usize>)
    ensures
        match r {
            Some(f) => first_index(deep(data@), row_of_scene(scene@)) == Some(f as int) && f < data.len(),
            None => first_index(deep(data@), row_of_scene(scene@)) is None,
        },
{
    let sv = to_chars(scene);
    let ghost dd = deep(data@);
    let ghost pr = row_of_scene(scene@);
    let mut k: usize = 0;
    assert(dd.take(0) =~= Seq::<Seq<char>>::empty());
    while k < data.len()
        invariant
            k <= data.len(),
            dd == deep(data@),
            pr == row_of_scene(scene@),
            sv@ == scene@,
            first_index(dd.take(k as int), pr) is None,
        decreases data.len() - k,
    {
        proof {
            lemma_first_index_step(dd, pr, k as int);
        }
        let hit = match scene_cell_of(&data[k]) {
            Some(c) => chars_eq(&c, &sv),
            None => false,
        };
        if hit {
            return Some(k);
        }
        k += 1;
    }
    proof {
        lemma_first_index_all(dd, pr);
    }
    None
}

fn number_cell_of(row: &Vec<char>) -> (r: Option<usize>)
    ensures
        r == number_cell(row@),
{
    let p = splitn_chars(row, '|', 6);
    if p.len() > 1 {
        let t = trim_chars(&p[1]);
        parse_usize_chars(&t)
    } else {
        None
    }
}

/// Records `key` in an index (see [`upsert_row`]).
fn upsert_index_row(
    existing: &str,
    header_text: &str,
    key: &str,
    time: &str,
    count: usize,
    out_file: &str,
    one_liner: &str,
) -> (r: String)
    requires
        existing@.len() < usize::MAX,
    ensures
        r@ == upsert_row(existing@, header_text@, key@, time@, count as nat, out_file@, one_liner@),
{
    if existing.is_empty() {
        let mut r = owned(header_text);
        let row = scene_row_text(1, key, time, count, out_file, one_liner);
        push_str(&mut r, row.as_str());
        push_str(&mut r, "\n");
        return r;
    }
    let v = to_chars(existing);
    let ls = lines_chars(&v);
    let ghost all = deep(ls@);
    let mut header: Vec<String> = Vec::new();
    let mut data: Vec<Vec<char>> = Vec::new();
    let mut in_data = false;
    let mut i: usize = 0;
    assert(all.take(0) =~= Seq::<Seq<char>>::empty());
    while i < ls.len()
        invariant
            i <= ls.len(),
            all == deep(ls@),
            split_scene_index(all.take(i as int)) == (views(header@), deep(data@), in_data),
        decreases ls.len() - i,
    {
        assert(all.take(i + 1).drop_last() =~= all.take(i as int));
        assert(all.take(i + 1).last() == ls@[i as int]@);
        let l = &ls[i];
        if starts_with_str(l, "|---") {
            let s = string_of(l);
            proof { lemma_views_push(header@, s); }
            header.push(s);
            in_data = true;
        } else if in_data && starts_with_str(l, "| ") {
            let c = crate::text::copy_chars(l);
            let ghost d0 = deep(data@);
            data.push(c);
            assert(deep(data@) =~= d0.push(c@));
        } else {
            let s = string_of(l);
            proof { lemma_views_push(header@, s); }
            header.push(s);
        }
        i += 1;
    }
    assert(all.take(ls.len() as int) =~= all);
    proof {
        lemma_split_scene_len(all);
        lemma_lines_len(existing@);
    }
    // Find the scene's row.
    let ghost dd = deep(data@);
    let found = find_scene_row(&data, key);
    let n: usize = match found {
        Some(f) => match number_cell_of(&data[f]) {
            Some(x) => x,
            None => data.len() + 1,
        },
        None => data.len() + 1,
    };
    let row = scene_row_text(n, key, time, count, out_file, one_liner);
    let mut rows: Vec<String> = Vec::new();
    let mut j: usize = 0;
    let ghost data2 = match found { Some(f) => dd.update(f as int, row@), None => dd.push(row@) };
    while j < data.len()
        invariant
            j <= data.len(),
            dd == deep(data@),
            data2 == match found { Some(f) => dd.update(f as int, row@), None => dd.push(row@) },
            found matches Some(f) ==> f < data.len(),
            views(rows@) == data2.take(j as int),
        decreases data.len() - j,
    {
        let s = if found == Some(j) { crate::text::copy_string(&row) } else { string_of(&data[j]) };
        proof { lemma_views_push(rows@, s); }
        rows.push(s);
        assert(views(rows@) =~= data2.take(j + 1));
        j += 1;
    }
    if found.is_none() {
        let s = crate::text::copy_string(&row);
        proof { lemma_views_push(rows@, s); }
        rows.push(s);
    }
    assert(views(rows@) =~= data2);
    let mut r = join_strings(&header, "\n");
    push_str(&mut r, "\n");
    let d = join_strings(&rows, "\n");
    push_str(&mut r, d.as_str());
    push_str(&mut r, "\n");
    r
}

/// Records a scene in the session's scene index (see [`upsert_scene`]).
pub fn upsert_scene_index(
    existing: &str,
    campaign: &str,
    session: &str,
    scene: &str,
    time: &str,
    turns: usize,
    out_file: &str,
    one_liner: &str,
) -> (r: String)
    requires
        existing@.len() < usize::MAX,
    ensures
        r@ == upsert_scene(existing@, campaign@, session@, scene@, time@, turns as nat, out_file@, one_liner@),
{
    let mut h = owned("# ");
    push_str(&mut h, campaign);
    push_str(&mut h, " / ");
    push_str(&mut h, session);
    push_str(&mut h, " — Scene Index\n\n");
    push_str(&mut h, "| # | Scene | Time (UTC) | Turns | Summary |\n");
    push_str(&mut h, "|---|-------|-----------|-------|---------|\n");
    assert(h@ =~= scene_index_header(campaign@, session@));
    upsert_index_row(existing, h.as_str(), scene, time, turns, out_file, one_liner)
}

/// Records a session summary in the campaign's session index (see [`upsert_session`]).
pub fn upsert_session_index(
    existing: &str,
    campaign: &str,
    session: &str,
    time: &str,
    scenes: usize,
    out_file: &str,
    one_liner: &str,
) -> (r: String)
    requires
        existing@.len() < usize::MAX,
    ensures
        r@ == upsert_session(existing@, campaign@, session@, time@, scenes as nat, out_file@, one_liner@),
{
    let mut h = owned("# ");
    push_str(&mut h, campaign);
    push_str(&mut h, " — Session Index\n\n");
    push_str(&mut h, "| # | Session | Time (UTC) | Scenes | Summary |\n");
    push_str(&mut h, "|---|---------|-----------|--------|---------|\n");
    assert(h@ =~= session_index_header(campaign@));
    upsert_index_row(existing, h.as_str(), session, time, scenes, out_file, one_liner)
}

/// The first non-blank line of a text, at most 120 characters of it.
pub open spec fn first_text_line_short(s: Seq<char>) -> Seq<char> {
    match first_index(lines(s), not_blank()) {
        Some(i) => take_chars(lines(s)[i], 120),
        None => Seq::empty(),
    }
}

pub fn first_text_line(s: &str) -> (r: String)
    ensures
        r@ == first_text_line_short(s@),
{
    let v = to_chars(s);
    let ls = lines_chars(&v);
    let ghost all = deep(ls@);
    let ghost q = not_blank();
    let mut i: usize = 0;
    assert(all.take(0) =~= Seq::<Seq<char>>::empty());
    while i < ls.len()
        invariant
            i <= ls.len(),
            all == deep(ls@),
            all == lines(s@),
            q == not_blank(),
            first_index(all.take(i as int), q) is None,
        decreases ls.len() - i,
    {
        proof {
            lemma_first_index_step(all, q, i as int);
        }
        let t = trim_chars(&ls[i]);
        if t.len() > 0 {
            let line = string_of(&ls[i]);
            return take_prefix(line.as_str(), 120);
        }
        i += 1;
    }
    proof {
        lemma_first_index_all(all, q);
    }
    String::new()
}

} // verus!
