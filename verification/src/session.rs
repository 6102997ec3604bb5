//! Deterministic steps of a session turn and a player turn: naming the
//! output file, choosing the grounding files, resolving `ROLL|` lines with
//! explicit dice notation, and the texts handed to the prose writer.
use vstd::prelude::*;

use crate::dice::{
    roll_inline, rolls_in_range, spec_parse_notation, sum_rolls, total_fits,
};
use crate::pipeline::{turn_file, turn_file_text};
use crate::text::{
    chars_eq_str, copy_string, decimal, decimals, deep, ends_with, int_text, join, join_strings,
    lemma_views_push, lines, lines_chars, owned, parse_i32, parse_i32_chars, parse_u32,
    parse_u32_chars, push_int, push_joined_u32, push_str, push_u64, signed_suffix, sort_strings,
    sorted_names, splitn, splitn_chars, starts_with, string_of, strip_prefix_chars, sub_chars,
    take_chars, take_prefix, to_chars, trim, trim_chars, views,
};

verus! {

// ───────────────────────────── output file ────────────────────────────────

/// `s.trim_start_matches(c)`: every leading `c` removed.
pub open spec fn trim_start_char(s: Seq<char>, c: char) -> Seq<char>
    decreases s.len(),
{
    if s.len() > 0 && s[0] == c {
        trim_start_char(s.drop_first(), c)
    } else {
        s
    }
}

/// `s.trim_end_matches(p)` for a non-empty pattern: every trailing `p` removed.
pub open spec fn strip_suffix_all(s: Seq<char>, p: Seq<char>) -> Seq<char>
    decreases s.len(),
{
    if p.len() > 0 && ends_with(s, p) {
        strip_suffix_all(s.take(s.len() - p.len()), p)
    } else {
        s
    }
}

/// `s.trim_start_matches(p)` for a non-empty pattern: every leading `p` removed.
pub open spec fn strip_prefix_all(s: Seq<char>, p: Seq<char>) -> Seq<char>
    decreases s.len(),
{
    if p.len() > 0 && starts_with(s, p) {
        strip_prefix_all(s.skip(p.len() as int), p)
    } else {
        s
    }
}

/// Backslashes, slashes, dots and spaces become underscores.
pub open spec fn underscored(c: char) -> char {
    if c == '\\' || c == '/' || c == '.' || c == ' ' {
        '_'
    } else {
        c
    }
}

pub open spec fn underscore_all(s: Seq<char>) -> Seq<char> {
    s.map_values(|c: char| underscored(c))
}

/// The file name a requested output name becomes: leading slashes dropped,
/// path and dot characters replaced by `_`, every trailing `_md` dropped,
/// and `.md` appended.
pub open spec fn output_file_name(f: Seq<char>) -> Seq<char> {
    let t = underscore_all(trim_start_char(f, '/'));
    if ends_with(t, "_md"@) {
        strip_suffix_all(t, "_md"@) + ".md"@
    } else {
        t + ".md"@
    }
}

proof fn lemma_trim_start_char_step(s: Seq<char>, c: char, i: int)
    requires
        0 <= i < s.len(),
        forall|k: int| 0 <= k <= i ==> s[k] == c,
    ensures
        trim_start_char(s, c) == trim_start_char(s.skip(i + 1), c),
    decreases i,
{
    assert(s.drop_first() =~= s.skip(1));
    if i > 0 {
        let t = s.drop_first();
        assert forall|k: int| 0 <= k <= i - 1 implies t[k] == c by {
            assert(t[k] == s[k + 1]);
        }
        lemma_trim_start_char_step(t, c, i - 1);
        assert(t.skip(i) =~= s.skip(i + 1));
    }
}

fn ends_with_md_suffix(v: &Vec<char>) -> (r: bool)
    ensures
        r == ends_with(v@, "_md"@),
{
    proof {
        reveal_strlit("_md");
    }
    let n = v.len();
    if n < 3 {
        return false;
    }
    let r = v[n - 3] == '_' && v[n - 2] == 'm' && v[n - 1] == 'd';
    proof {
        let sub = v@.subrange(n - 3, n as int);
        if r {
            assert(sub =~= "_md"@);
        } else if sub == "_md"@ {
            assert(sub[0] == v@[n - 3] && sub[1] == v@[n - 2] && sub[2] == v@[n - 1]);
        }
    }
    r
}

/// The file name a requested output name becomes (see [`output_file_name`]).
pub fn output_file_name_of(requested: &str) -> (r: String)
    ensures
        r@ == output_file_name(requested@),
{
    let v = to_chars(requested);
    let mut i: usize = 0;
    while i < v.len() && v[i] == '/'
        invariant
            i <= v.len(),
            forall|k: int| 0 <= k < i ==> v@[k] == '/',
        decreases v.len() - i,
    {
        i += 1;
    }
    proof {
        if i > 0 {
            lemma_trim_start_char_step(v@, '/', i - 1);
        } else {
            assert(v@.skip(0) =~= v@);
        }
        assert(trim_start_char(v@, '/') == v@.skip(i as int)) by {
            let s = v@.skip(i as int);
            if i < v.len() {
                assert(s[0] == v@[i as int]);
            }
        }
    }
    let ghost base = trim_start_char(v@, '/');
    let mut t: Vec<char> = Vec::new();
    let mut j: usize = i;
    while j < v.len()
        invariant
            i <= j <= v.len(),
            base == v@.skip(i as int),
            t@ == underscore_all(base.take(j - i)),
        decreases v.len() - j,
    {
        let c = v[j];
        let d = if c == '\\' || c == '/' || c == '.' || c == ' ' { '_' } else { c };
        assert(base.take(j - i + 1) =~= base.take(j - i).push(c));
        t.push(d);
        assert(t@ =~= underscore_all(base.take(j - i + 1)));
        j += 1;
    }
    assert(base.take(j - i) =~= base);
    let ghost full = t@;
    if ends_with_md_suffix(&t) {
        while ends_with_md_suffix(&t)
            invariant
                strip_suffix_all(t@, "_md"@) == strip_suffix_all(full, "_md"@),
            decreases t.len(),
        {
            proof {
                reveal_strlit("_md");
            }
            let n = t.len();
            t = sub_chars(&t, 0, n - 3);
        }
        let mut r = string_of(&t);
        push_str(&mut r, ".md");
        r
    } else {
        let mut r = string_of(&t);
        push_str(&mut r, ".md");
        r
    }
}

/// Whatever was asked for, the output file is a plain `.md` name in the
/// session directory: it ends in `.md` and holds no slash, backslash or
/// space, and no dot before its extension.
pub proof fn law_output_file_is_flat(f: Seq<char>)
    ensures
        ({
            let r = output_file_name(f);
            &&& ends_with(r, ".md"@)
            &&& forall|i: int| 0 <= i < r.len() - 3 ==> #[trigger] r[i] != '/' && r[i] != '\\' && r[i] != ' ' && r[i] != '.'
        }),
{
    reveal_strlit(".md");
    reveal_strlit("_md");
    let t = underscore_all(trim_start_char(f, '/'));
    assert forall|i: int| 0 <= i < t.len() implies #[trigger] t[i] != '/' && t[i] != '\\' && t[i] != ' ' && t[i] != '.' by {}
    if ends_with(t, "_md"@) {
        lemma_strip_suffix_prefix(t, "_md"@);
        let u = strip_suffix_all(t, "_md"@);
        let r = u + ".md"@;
        assert(r.subrange(r.len() - 3, r.len() as int) =~= ".md"@);
        assert forall|i: int| 0 <= i < r.len() - 3 implies #[trigger] r[i] != '/' && r[i] != '\\' && r[i] != ' ' && r[i] != '.' by {
            assert(r[i] == u[i]);
            assert(u[i] == t[i]);
        }
    } else {
        let r = t + ".md"@;
        assert(r.subrange(r.len() - 3, r.len() as int) =~= ".md"@);
        assert forall|i: int| 0 <= i < r.len() - 3 implies #[trigger] r[i] != '/' && r[i] != '\\' && r[i] != ' ' && r[i] != '.' by {
            assert(r[i] == t[i]);
        }
    }
}

/// What dropping every trailing `p` leaves is a prefix of the text.
proof fn lemma_strip_suffix_prefix(s: Seq<char>, p: Seq<char>)
    ensures
        strip_suffix_all(s, p).len() <= s.len(),
        strip_suffix_all(s, p) == s.take(strip_suffix_all(s, p).len() as int),
    decreases s.len(),
{
    if p.len() > 0 && ends_with(s, p) {
        let t = s.take(s.len() - p.len());
        lemma_strip_suffix_prefix(t, p);
        let k = strip_suffix_all(t, p).len() as int;
        assert(t.take(k) =~= s.take(k));
    } else {
        assert(s.take(s.len() as int) =~= s);
    }
}

// ───────────────────────────── next turn file ──────────────────────────────

/// The number `N` of a directory entry named `turn_N.md` (any number of
/// trailing `.md` dropped before reading `N`).
pub open spec fn turn_number_of_name(name: Seq<char>) -> Option<u32> {
    if starts_with(name, "turn_"@) {
        parse_u32(strip_suffix_all(name.skip(5), ".md"@))
    } else {
        None
    }
}

/// One past the highest turn number among `names`, and at least 1.
pub open spec fn next_turn(names: Seq<Seq<char>>) -> int
    decreases names.len(),
{
    if names.len() == 0 {
        1
    } else {
        let n = next_turn(names.drop_last());
        match turn_number_of_name(names.last()) {
            Some(k) => if k >= n { k + 1 } else { n },
            None => n,
        }
    }
}

/// No entry carries the largest turn number (one past it would overflow).
pub open spec fn turn_numbers_bounded(names: Seq<Seq<char>>) -> bool {
    forall|i: int| 0 <= i < names.len() ==> #[trigger] turn_number_of_name(names[i]) != Some(u32::MAX)
}

/// The next turn file is numbered past every existing turn, and from 1 up.
pub proof fn lemma_next_turn_bounds(names: Seq<Seq<char>>)
    requires
        turn_numbers_bounded(names),
    ensures
        1 <= next_turn(names) <= u32::MAX,
        forall|i: int| 0 <= i < names.len() ==> match #[trigger] turn_number_of_name(names[i]) {
            Some(k) => k < next_turn(names),
            None => true,
        },
    decreases names.len(),
{
    if names.len() > 0 {
        let p = names.drop_last();
        assert forall|i: int| 0 <= i < p.len() implies #[trigger] turn_number_of_name(p[i]) != Some(u32::MAX) by {
            assert(p[i] == names[i]);
        }
        lemma_next_turn_bounds(p);
        assert(names.last() == names[names.len() - 1]);
        assert forall|i: int| 0 <= i < names.len() implies match #[trigger] turn_number_of_name(names[i]) {
            Some(k) => k < next_turn(names),
            None => true,
        } by {
            if i < names.len() - 1 {
                assert(names[i] == p[i]);
            }
        }
    }
}

fn strip_md_suffixes(v: &Vec<char>) -> (r: Vec<char>)
    ensures
        r@ == strip_suffix_all(v@, ".md"@),
{
    proof {
        reveal_strlit(".md");
    }
    let mut t = crate::text::copy_chars(v);
    while t.len() >= 3 && t[t.len() - 3] == '.' && t[t.len() - 2] == 'm' && t[t.len() - 1] == 'd'
        invariant
            strip_suffix_all(t@, ".md"@) == strip_suffix_all(v@, ".md"@),
            ".md"@ == seq!['.', 'm', 'd'],
        decreases t.len(),
    {
        let n = t.len();
        assert(t@.subrange(n - 3, n as int) =~= ".md"@);
        t = sub_chars(&t, 0, n - 3);
    }
    proof {
        let n = t.len();
        if n >= 3 {
            if t@.subrange(n - 3, n as int) =~= ".md"@ {
                assert(t@[n - 3] == '.' && t@[n - 2] == 'm' && t@[n - 1] == 'd');
            }
        }
    }
    t
}

fn turn_number_of_entry(name: &String) -> (r: Option<u32>)
    ensures
        r == turn_number_of_name(name@),
{
    let v = to_chars(name.as_str());
    match strip_prefix_chars(&v, "turn_") {
        None => None,
        Some(rest) => {
            proof {
                reveal_strlit("turn_");
            }
            let num = strip_md_suffixes(&rest);
            parse_u32_chars(&num)
        },
    }
}

/// `turn_{n:03}.md` for one past the highest `turn_N.md` among the entries
/// of a session directory (`turn_001.md` when there is none).
pub fn next_turn_file(names: &Vec<String>) -> (r: String)
    requires
        turn_numbers_bounded(views(names@)),
    ensures
        r@ == turn_file(next_turn(views(names@)) as nat),
{
    let ghost all = views(names@);
    let mut n: u32 = 1;
    let mut i: usize = 0;
    proof {
        lemma_next_turn_bounds(all);
    }
    assert(all.take(0) =~= Seq::<Seq<char>>::empty());
    while i < names.len()
        invariant
            i <= names.len(),
            all == views(names@),
            turn_numbers_bounded(all),
            n as int == next_turn(all.take(i as int)),
        decreases names.len() - i,
    {
        assert(all.take(i + 1).drop_last() =~= all.take(i as int));
        assert(all.take(i + 1).last() == names@[i as int]@);
        let k = turn_number_of_entry(&names[i]);
        match k {
            Some(k) => {
                assert(turn_number_of_name(all[i as int]) == Some(k));
                if k >= n {
                    n = k + 1;
                }
            },
            None => {},
        }
        i += 1;
    }
    assert(all.take(names.len() as int) =~= all);
    turn_file_text(n)
}

/// Whether [`next_turn_file`] can name a file for these entries: no entry
/// is `turn_4294967295.md`.
pub fn turn_numbers_fit(names: &Vec<String>) -> (r: bool)
    ensures
        r == turn_numbers_bounded(views(names@)),
{
    let ghost all = views(names@);
    let mut i: usize = 0;
    while i < names.len()
        invariant
            i <= names.len(),
            all == views(names@),
            forall|k: int| 0 <= k < i ==> #[trigger] turn_number_of_name(all[k]) != Some(u32::MAX),
        decreases names.len() - i,
    {
        let k = turn_number_of_entry(&names[i]);
        if k == Some(u32::MAX) {
            assert(turn_number_of_name(all[i as int]) == Some(u32::MAX));
            return false;
        }
        i += 1;
    }
    true
}

// ──────────────────────────── previous session ─────────────────────────────

/// The session before `session{N}` for `N > 1` (every leading `session`
/// dropped before reading `N`).
pub open spec fn previous_session(session_dir: Seq<char>) -> Option<Seq<char>> {
    match parse_u32(strip_prefix_all(session_dir, "session"@)) {
        Some(n) => if n > 1 { Some("session"@ + decimal((n - 1) as nat)) } else { None },
        None => None,
    }
}

/// The session directory before this one, as [`previous_session`] states.
pub fn previous_session_of(session_dir: &str) -> (r: Option<String>)
    ensures
        match r {
            Some(s) => previous_session(session_dir@) == Some(s@),
            None => previous_session(session_dir@) is None,
        },
{
    let mut t = to_chars(session_dir);
    loop
        invariant
            strip_prefix_all(t@, "session"@) == strip_prefix_all(session_dir@, "session"@),
        ensures
            strip_prefix_all(t@, "session"@) == strip_prefix_all(session_dir@, "session"@),
            !starts_with(t@, "session"@),
        decreases t.len(),
    {
        match strip_prefix_chars(&t, "session") {
            Some(rest) => {
                proof {
                    reveal_strlit("session");
                }
                t = rest;
            },
            None => {
                break;
            },
        }
    }
    match parse_u32_chars(&t) {
        Some(n) => {
            if n > 1 {
                let mut r = owned("session");
                push_u64(&mut r, (n - 1) as u64);
                Some(r)
            } else {
                None
            }
        },
        None => None,
    }
}

// ──────────────────────────── grounding files ──────────────────────────────

/// The `.md` entries of a directory other than `skip` and the turn index
/// `TURNS.md`, in listing order.
pub open spec fn prose_entries(names: Seq<Seq<char>>, skip: Seq<char>) -> Seq<Seq<char>>
    decreases names.len(),
{
    if names.len() == 0 {
        Seq::empty()
    } else {
        let p = prose_entries(names.drop_last(), skip);
        let n = names.last();
        if ends_with(n, ".md"@) && n != skip && n != "TURNS.md"@ {
            p.push(n)
        } else {
            p
        }
    }
}

/// The last two entries, last first (`iter().rev().take(2)`).
pub open spec fn last_two_reversed(s: Seq<Seq<char>>) -> Seq<Seq<char>> {
    if s.len() >= 2 {
        seq![s[s.len() - 1], s[s.len() - 2]]
    } else {
        s
    }
}

/// The turn files that ground the next turn: of the session's prose
/// entries other than the file being written, the two last in sorted
/// order, last first.
pub open spec fn grounding_turns(names: Seq<Seq<char>>, out_file: Seq<char>) -> Seq<Seq<char>> {
    last_two_reversed(sorted_names(prose_entries(names, out_file)))
}

/// The latest prose entry of the previous session: the last one in sorted
/// order, if any.
pub open spec fn latest_entry(names: Seq<Seq<char>>) -> Option<Seq<char>> {
    let s = sorted_names(prose_entries(names, "TURNS.md"@));
    if s.len() > 0 { Some(s.last()) } else { None }
}

fn is_md_name(v: &Vec<char>) -> (r: bool)
    ensures
        r == ends_with(v@, ".md"@),
{
    proof {
        reveal_strlit(".md");
    }
    let n = v.len();
    if n < 3 {
        return false;
    }
    let r = v[n - 3] == '.' && v[n - 2] == 'm' && v[n - 1] == 'd';
    proof {
        let sub = v@.subrange(n - 3, n as int);
        if r {
            assert(sub =~= ".md"@);
        } else if sub == ".md"@ {
            assert(sub[0] == v@[n - 3] && sub[1] == v@[n - 2] && sub[2] == v@[n - 1]);
        }
    }
    r
}

fn prose_entries_of(names: &Vec<String>, skip: &str) -> (r: Vec<String>)
    ensures
        views(r@) == prose_entries(views(names@), skip@),
{
    let ghost all = views(names@);
    let mut r: Vec<String> = Vec::new();
    let mut i: usize = 0;
    assert(all.take(0) =~= Seq::<Seq<char>>::empty());
    while i < names.len()
        invariant
            i <= names.len(),
            all == views(names@),
            views(r@) == prose_entries(all.take(i as int), skip@),
        decreases names.len() - i,
    {
        assert(all.take(i + 1).drop_last() =~= all.take(i as int));
        assert(all.take(i + 1).last() == names@[i as int]@);
        let n = &names[i];
        let v = to_chars(n.as_str());
        if is_md_name(&v) && !chars_eq_str(&v, skip) && !chars_eq_str(&v, "TURNS.md") {
            let c = copy_string(n);
            proof { lemma_views_push(r@, c); }
            r.push(c);
        }
        i += 1;
    }
    assert(all.take(names.len() as int) =~= all);
    r
}

/// The session's turn files that ground the next turn (see [`grounding_turns`]).
pub fn grounding_turn_files(names: &Vec<String>, out_file: &str) -> (r: Vec<String>)
    ensures
        views(r@) == grounding_turns(views(names@), out_file@),
{
    let c = prose_entries_of(names, out_file);
    let s = sort_strings(&c);
    let mut r: Vec<String> = Vec::new();
    let n = s.len();
    if n >= 2 {
        r.push(copy_string(&s[n - 1]));
        r.push(copy_string(&s[n - 2]));
        assert(views(r@) =~= last_two_reversed(views(s@)));
    } else {
        let mut i: usize = 0;
        while i < n
            invariant
                i <= n == s.len() < 2,
                views(r@) == views(s@).take(i as int),
            decreases n - i,
        {
            let c = copy_string(&s[i]);
            proof { lemma_views_push(r@, c); }
            r.push(c);
            assert(views(s@).take(i + 1) =~= views(s@).take(i as int).push(s@[i as int]@));
            i += 1;
        }
        assert(views(s@).take(n as int) =~= views(s@));
    }
    r
}

/// The latest prose entry of a directory listing (see [`latest_entry`]).
pub fn latest_prose_entry(names: &Vec<String>) -> (r: Option<String>)
    ensures
        match r {
            Some(s) => latest_entry(views(names@)) == Some(s@),
            None => latest_entry(views(names@)) is None,
        },
{
    let c = prose_entries_of(names, "TURNS.md");
    let s = sort_strings(&c);
    if s.len() > 0 {
        Some(copy_string(&s[s.len() - 1]))
    } else {
        None
    }
}

/// One grounding file in the prompt: `### {label}\n{first 1500 chars}\n`.
pub open spec fn grounding_entry(label: Seq<char>, text: Seq<char>) -> Seq<char> {
    "### "@ + label + "\n"@ + take_chars(text, 1500) + "\n"@
}

pub open spec fn grounding_entries(files: Seq<(Seq<char>, Seq<char>)>) -> Seq<Seq<char>> {
    files.map_values(|f: (Seq<char>, Seq<char>)| grounding_entry(f.0, f.1))
}

pub open spec fn file_views(files: Seq<(String, String)>) -> Seq<(Seq<char>, Seq<char>)> {
    files.map_values(|f: (String, String)| (f.0@, f.1@))
}

/// The grounding block of the fact-checker's prompt: one entry per file
/// read, separated by blank lines.
pub fn grounding_block(files: &Vec<(String, String)>) -> (r: String)
    ensures
        r@ == join(grounding_entries(file_views(files@)), "\n"@),
{
    let ghost want = grounding_entries(file_views(files@));
    let mut parts: Vec<String> = Vec::new();
    let mut i: usize = 0;
    while i < files.len()
        invariant
            i <= files.len(),
            want == grounding_entries(file_views(files@)),
            views(parts@) == want.take(i as int),
        decreases files.len() - i,
    {
        let (label, text) = &files[i];
        let mut e = owned("### ");
        push_str(&mut e, label.as_str());
        push_str(&mut e, "\n");
        let t = take_prefix(text.as_str(), 1500);
        push_str(&mut e, t.as_str());
        push_str(&mut e, "\n");
        proof { lemma_views_push(parts@, e); }
        parts.push(e);
        assert(want.take(i + 1) =~= want.take(i as int).push(want[i as int]));
        assert(views(parts@) =~= want.take(i + 1));
        i += 1;
    }
    assert(want.take(files.len() as int) =~= want);
    join_strings(&parts, "\n")
}

// ───────────────────────── rolls with explicit notation ─────────────────────

/// A `ROLL|Character|ABILITY|notation|DC|reason` request.
pub struct RollRequest {
    pub char_name: Seq<char>,
    pub ability: Seq<char>,
    pub notation: Seq<char>,
    pub dc: i32,
    pub reason: Seq<char>,
}

/// The DC of a request: its DC field, else (when the model wrote `DC` there)
/// the reason field read as a number, else 14.
pub open spec fn request_dc(dc_field: Seq<char>, reason: Seq<char>) -> i32 {
    match parse_i32(dc_field) {
        Some(d) => d,
        None => match parse_i32(trim(reason)) {
            Some(d) => d,
            None => 14,
        },
    }
}

/// The request a line of the rules lawyer's output makes, if it is one:
/// a trimmed line starting `ROLL|` with at least five `|`-separated fields.
pub open spec fn roll_request(line: Seq<char>) -> Option<RollRequest> {
    let l = trim(line);
    if !starts_with(l, "ROLL|"@) {
        None
    } else {
        let parts = splitn(l, '|', 6);
        if parts.len() < 5 {
            None
        } else {
            let reason = if parts.len() > 5 { trim(parts[5]) } else { Seq::empty() };
            Some(RollRequest {
                char_name: trim(parts[1]),
                ability: trim(parts[2]),
                notation: trim(parts[3]),
                dc: request_dc(trim(parts[4]), reason),
                reason,
            })
        }
    }
}

/// The requests that are rolled, in order: those whose notation parses.
pub open spec fn rolled_requests(ls: Seq<Seq<char>>) -> Seq<RollRequest>
    decreases ls.len(),
{
    if ls.len() == 0 {
        Seq::empty()
    } else {
        let p = rolled_requests(ls.drop_last());
        match roll_request(ls.last()) {
            Some(q) => if spec_parse_notation(q.notation) is Some { p.push(q) } else { p },
            None => p,
        }
    }
}

/// Every request's notation has totals that fit an `i32`.
pub open spec fn requests_fit(ls: Seq<Seq<char>>) -> bool {
    forall|i: int| 0 <= i < ls.len() ==> match #[trigger] roll_request(ls[i]) {
        Some(q) => total_fits(q.notation),
        None => true,
    }
}

pub open spec fn outcome_word(success: bool) -> Seq<char> {
    if success { "SUCCESS"@ } else { "FAILURE"@ }
}

/// `{char} {ability}: {notation} → [{rolls}]{±mod} = **{total}** vs DC {dc} → **{outcome}** ({reason})`.
pub open spec fn request_result(q: RollRequest, rolls: Seq<u32>, modifier: i32, total: i32) -> Seq<char> {
    q.char_name + " "@ + q.ability + ": "@ + q.notation + " → ["@ + join(decimals(rolls), ", "@) + "]"@
        + signed_suffix(modifier as int) + " = **"@ + int_text(total as int) + "** vs DC "@
        + int_text(q.dc as int) + " → **"@ + outcome_word(total >= q.dc) + "** ("@ + q.reason + ")"@
}

/// The dice of a turn: notations for the turn index, full outcome lines for
/// the prose writer, and the dice and totals they report.
pub struct TurnDice {
    pub dice_lines: Vec<String>,
    pub dice_results: Vec<String>,
    pub rolls: Vec<Vec<u32>>,
    pub totals: Vec<i32>,
}

impl TurnDice {
    /// Entry `i` records a roll of request `q`.
    pub open spec fn entry_ok(&self, i: int, q: RollRequest) -> bool {
        match spec_parse_notation(q.notation) {
            Some((count, sides, modifier)) => {
                &&& self.rolls@[i].len() == count
                &&& rolls_in_range(self.rolls@[i]@, sides)
                &&& self.totals@[i] as int == sum_rolls(self.rolls@[i]@) + modifier as int
                &&& self.dice_lines@[i]@ == q.notation
                &&& self.dice_results@[i]@ == request_result(q, self.rolls@[i]@, modifier, self.totals@[i])
            },
            None => false,
        }
    }

    pub open spec fn describes(&self, qs: Seq<RollRequest>) -> bool {
        &&& self.dice_lines.len() == qs.len()
        &&& self.dice_results.len() == qs.len()
        &&& self.rolls.len() == qs.len()
        &&& self.totals.len() == qs.len()
        &&& forall|i: int| 0 <= i < qs.len() ==> #[trigger] self.entry_ok(i, qs[i])
    }
}

/// An executable roll request.
pub struct RequestedRoll {
    pub char_name: String,
    pub ability: String,
    pub notation: String,
    pub dc: i32,
    pub reason: String,
}

impl RequestedRoll {
    pub open spec fn request(&self) -> RollRequest {
        RollRequest {
            char_name: self.char_name@,
            ability: self.ability@,
            notation: self.notation@,
            dc: self.dc,
            reason: self.reason@,
        }
    }
}

/// Reads one line of the rules lawyer's output (see [`roll_request`]).
pub fn parse_roll_request(line: &str) -> (r: Option<RequestedRoll>)
    ensures
        match r {
            Some(q) => roll_request(line@) == Some(q.request()),
            None => roll_request(line@) is None,
        },
{
    let v = to_chars(line);
    let l = trim_chars(&v);
    if strip_prefix_chars(&l, "ROLL|").is_none() {
        return None;
    }
    let parts = splitn_chars(&l, '|', 6);
    if parts.len() < 5 {
        return None;
    }
    let reason_v = if parts.len() > 5 { trim_chars(&parts[5]) } else { Vec::new() };
    assert(parts.len() <= 5 ==> reason_v@ =~= Seq::<char>::empty());
    let dc_v = trim_chars(&parts[4]);
    let dc: i32 = match parse_i32_chars(&dc_v) {
        Some(d) => d,
        None => {
            let rt = trim_chars(&reason_v);
            match parse_i32_chars(&rt) {
                Some(d) => d,
                None => 14,
            }
        },
    };
    Some(RequestedRoll {
        char_name: string_of(&trim_chars(&parts[1])),
        ability: string_of(&trim_chars(&parts[2])),
        notation: string_of(&trim_chars(&parts[3])),
        dc,
        reason: string_of(&reason_v),
    })
}

fn request_result_string(q: &RequestedRoll, rolls: &Vec<u32>, modifier: i32, total: i32) -> (r: String)
    ensures
        r@ == request_result(q.request(), rolls@, modifier, total),
{
    let mut r = owned(q.char_name.as_str());
    push_str(&mut r, " ");
    push_str(&mut r, q.ability.as_str());
    push_str(&mut r, ": ");
    push_str(&mut r, q.notation.as_str());
    push_str(&mut r, " → [");
    push_joined_u32(&mut r, rolls, ", ");
    push_str(&mut r, "]");
    crate::dice::push_signed_suffix(&mut r, modifier);
    push_str(&mut r, " = **");
    push_int(&mut r, total as i64);
    push_str(&mut r, "** vs DC ");
    push_int(&mut r, q.dc as i64);
    push_str(&mut r, " → **");
    push_str(&mut r, if total >= q.dc { "SUCCESS" } else { "FAILURE" });
    push_str(&mut r, "** (");
    push_str(&mut r, q.reason.as_str());
    push_str(&mut r, ")");
    assert(r@ =~= request_result(q.request(), rolls@, modifier, total));
    r
}

/// Whether every roll request of the output can be totalled in an `i32`
/// (what [`roll_turn_dice`] needs).
pub fn request_totals_fit(rules_output: &str) -> (r: bool)
    ensures
        r == requests_fit(lines(rules_output@)),
{
    let text = to_chars(rules_output);
    let ls = lines_chars(&text);
    let ghost all = deep(ls@);
    let mut i: usize = 0;
    while i < ls.len()
        invariant
            i <= ls.len(),
            all == deep(ls@),
            all == lines(rules_output@),
            forall|k: int| 0 <= k < i ==> match #[trigger] roll_request(all[k]) {
                Some(q) => total_fits(q.notation),
                None => true,
            },
        decreases ls.len() - i,
    {
        let line = string_of(&ls[i]);
        assert(line@ == all[i as int]);
        match parse_roll_request(line.as_str()) {
            Some(q) => {
                if !crate::dice::notation_total_fits(q.notation.as_str()) {
                    return false;
                }
            },
            None => {},
        }
        i += 1;
    }
    true
}

/// Rolls every request of the rules lawyer's output whose notation parses,
/// judging each total against its DC.
///
/// The dice are random: the contract states, for whatever was rolled, that
/// each request was rolled once, in order, with its notation's dice and
/// modifier, and that each line reports exactly those dice.
pub fn roll_turn_dice(rules_output: &str) -> (r: TurnDice)
    requires
        requests_fit(lines(rules_output@)),
    ensures
        r.describes(rolled_requests(lines(rules_output@))),
{
    let text = to_chars(rules_output);
    let ls = lines_chars(&text);
    let ghost all = deep(ls@);
    let mut out = TurnDice { dice_lines: Vec::new(), dice_results: Vec::new(), rolls: Vec::new(), totals: Vec::new() };
    let mut i: usize = 0;
    assert(all.take(0) =~= Seq::<Seq<char>>::empty());
    while i < ls.len()
        invariant
            i <= ls.len(),
            all == deep(ls@),
            all == lines(rules_output@),
            requests_fit(all),
            out.describes(rolled_requests(all.take(i as int))),
        decreases ls.len() - i,
    {
        let ghost qs0 = rolled_requests(all.take(i as int));
        proof {
            assert(all.take(i + 1).drop_last() =~= all.take(i as int));
            assert(all.take(i + 1).last() == ls@[i as int]@);
        }
        let line = string_of(&ls[i]);
        match parse_roll_request(line.as_str()) {
            None => {},
            Some(q) => {
                assert(roll_request(all[i as int]) == Some(q.request()));
                match roll_inline(q.notation.as_str()) {
                    None => {},
                    Some((rolls, modifier, total)) => {
                        let rl = request_result_string(&q, &rolls, modifier, total);
                        let nl = copy_string(&q.notation);
                        let ghost old_out = out;
                        out.dice_lines.push(nl);
                        out.dice_results.push(rl);
                        out.rolls.push(rolls);
                        out.totals.push(total);
                        proof {
                            let qs1 = qs0.push(q.request());
                            assert forall|k: int| 0 <= k < qs1.len() implies #[trigger] out.entry_ok(k, qs1[k]) by {
                                if k < qs0.len() {
                                    assert(qs1[k] == qs0[k]);
                                    assert(old_out.entry_ok(k, qs0[k]));
                                    assert(out.rolls@[k] == old_out.rolls@[k]);
                                    assert(out.totals@[k] == old_out.totals@[k]);
                                    assert(out.dice_lines@[k] == old_out.dice_lines@[k]);
                                    assert(out.dice_results@[k] == old_out.dice_results@[k]);
                                } else {
                                    assert(qs1[k] == q.request());
                                }
                            }
                        }
                    },
                }
            },
        }
        i += 1;
    }
    assert(all.take(ls.len() as int) =~= all);
    out
}

/// What the prose writer is told of the dice: the outcome lines, one per
/// line, or when nothing was rolled `No roll required. Focus the scene on: {focus}`.
pub open spec fn dice_context(results: Seq<Seq<char>>, focus: Seq<char>) -> Seq<char> {
    if results.len() == 0 {
        "No roll required. Focus the scene on: "@ + focus
    } else {
        join(results, "\n"@)
    }
}

pub fn dice_context_text(results: &Vec<String>, focus: &str) -> (r: String)
    ensures
        r@ == dice_context(views(results@), focus@),
{
    if results.len() == 0 {
        let mut r = owned("No roll required. Focus the scene on: ");
        push_str(&mut r, focus);
        r
    } else {
        join_strings(results, "\n")
    }
}

/// The dice column of the turn index: the notations joined by `, `, or `—`.
pub open spec fn dice_inline(notations: Seq<Seq<char>>) -> Seq<char> {
    if notations.len() == 0 { "—"@ } else { join(notations, ", "@) }
}

pub fn dice_inline_text(notations: &Vec<String>) -> (r: String)
    ensures
        r@ == dice_inline(views(notations@)),
{
    if notations.len() == 0 {
        owned("—")
    } else {
        join_strings(notations, ", ")
    }
}

// ──────────────────────────── session summary ──────────────────────────────

/// The names among `names` that start with `prefix` and end with `suffix`,
/// in listing order.
pub open spec fn named_like(names: Seq<Seq<char>>, prefix: Seq<char>, suffix: Seq<char>) -> Seq<Seq<char>>
    decreases names.len(),
{
    if names.len() == 0 {
        Seq::empty()
    } else {
        let p = named_like(names.drop_last(), prefix, suffix);
        let n = names.last();
        if starts_with(n, prefix) && ends_with(n, suffix) { p.push(n) } else { p }
    }
}

/// The names that start with `prefix` and end with `suffix`, sorted.
pub fn sorted_named_like(names: &Vec<String>, prefix: &str, suffix: &str) -> (r: Vec<String>)
    ensures
        views(r@) == sorted_names(named_like(views(names@), prefix@, suffix@)),
{
    let ghost all = views(names@);
    let pv = to_chars(prefix);
    let sv = to_chars(suffix);
    let mut c: Vec<String> = Vec::new();
    let mut i: usize = 0;
    assert(all.take(0) =~= Seq::<Seq<char>>::empty());
    while i < names.len()
        invariant
            i <= names.len(),
            all == views(names@),
            pv@ == prefix@,
            sv@ == suffix@,
            views(c@) == named_like(all.take(i as int), prefix@, suffix@),
        decreases names.len() - i,
    {
        assert(all.take(i + 1).drop_last() =~= all.take(i as int));
        assert(all.take(i + 1).last() == names@[i as int]@);
        let v = to_chars(names[i].as_str());
        let has_prefix = pv.len() <= v.len() && crate::text::chars_eq(&sub_chars(&v, 0, pv.len()), &pv);
        let has_suffix = sv.len() <= v.len()
            && crate::text::chars_eq(&sub_chars(&v, v.len() - sv.len(), v.len()), &sv);
        if has_prefix && has_suffix {
            let n = copy_string(&names[i]);
            proof { lemma_views_push(c@, n); }
            c.push(n);
        }
        i += 1;
    }
    assert(all.take(names.len() as int) =~= all);
    sort_strings(&c)
}

/// One condensed summary: `**{label}**: {summary}`.
pub open spec fn condensed_entry(label: Seq<char>, summary: Seq<char>) -> Seq<char> {
    "**"@ + label + "**: "@ + summary
}

/// The per-scene summaries handed to the session writer, separated by blank lines.
pub open spec fn condensed(items: Seq<(Seq<char>, Seq<char>)>) -> Seq<char> {
    join(items.map_values(|x: (Seq<char>, Seq<char>)| condensed_entry(x.0, x.1)), "\n\n"@)
}

pub fn condensed_summaries(items: &Vec<(String, String)>) -> (r: String)
    ensures
        r@ == condensed(file_views(items@)),
{
    let ghost want = file_views(items@).map_values(|x: (Seq<char>, Seq<char>)| condensed_entry(x.0, x.1));
    let mut parts: Vec<String> = Vec::new();
    let mut i: usize = 0;
    while i < items.len()
        invariant
            i <= items.len(),
            want == file_views(items@).map_values(|x: (Seq<char>, Seq<char>)| condensed_entry(x.0, x.1)),
            views(parts@) == want.take(i as int),
        decreases items.len() - i,
    {
        let (label, summary) = &items[i];
        let mut e = owned("**");
        push_str(&mut e, label.as_str());
        push_str(&mut e, "**: ");
        push_str(&mut e, summary.as_str());
        proof { lemma_views_push(parts@, e); }
        parts.push(e);
        assert(want.take(i + 1) =~= want.take(i as int).push(want[i as int]));
        i += 1;
    }
    assert(want.take(items.len() as int) =~= want);
    join_strings(&parts, "\n\n")
}

/// The session a grand opener starts after `hook`: `session{N+1}` for
/// `session{N}`, else `{hook}_next`.
pub open spec fn next_session(hook: Seq<char>) -> Seq<char> {
    if starts_with(hook, "session"@) {
        match parse_u32(hook.skip(7)) {
            Some(n) => "session"@ + decimal((n + 1) as nat),
            None => hook + "_next"@,
        }
    } else {
        hook + "_next"@
    }
}

/// The hook is not `session{u32::MAX}`, whose successor overflows.
pub open spec fn next_session_defined(hook: Seq<char>) -> bool {
    !(starts_with(hook, "session"@) && parse_u32(hook.skip(7)) == Some(u32::MAX))
}

pub(crate) fn session_number(hook: &str) -> (r: Option<u32>)
    ensures
        r == (if starts_with(hook@, "session"@) { parse_u32(hook@.skip(7)) } else { None }),
{
    proof {
        reveal_strlit("session");
    }
    let v = to_chars(hook);
    match strip_prefix_chars(&v, "session") {
        Some(rest) => parse_u32_chars(&rest),
        None => None,
    }
}

/// Whether [`next_session_name`] is defined for the hook.
pub fn next_session_fits(hook: &str) -> (r: bool)
    ensures
        r == next_session_defined(hook@),
{
    session_number(hook) != Some(u32::MAX)
}

/// The session a grand opener starts (see [`next_session`]).
pub fn next_session_name(hook: &str) -> (r: String)
    requires
        next_session_defined(hook@),
    ensures
        r@ == next_session(hook@),
{
    match session_number(hook) {
        Some(n) => {
            let mut r = owned("session");
            push_u64(&mut r, n as u64 + 1);
            r
        },
        None => {
            let mut r = owned(hook);
            push_str(&mut r, "_next");
            r
        },
    }
}

} // verus!
