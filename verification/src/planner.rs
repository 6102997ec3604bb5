//! The deterministic steps of the campaign endpoints that plan a turn or a
//! new scene with a model: which agent definition runs, which files and dice
//! a model's JSON reply selects, and the texts assembled in between.
use vstd::prelude::*;

use crate::agent::{strip_prefix_repeated, strip_suffix_repeated};
use crate::dice::push_signed_suffix;
use crate::session::{
    next_session_defined, next_session_fits, session_number, strip_prefix_all, strip_suffix_all, trim_start_char,
};
use crate::text::{
    chars_eq_ignore_ascii_case, contains, contains_chars, copy_string, decimal, decimals, deep, ends_with,
    eq_ignore_ascii_case, first_index, int_text, join, join_strings, lemma_first_index_step,
    lemma_views_push, lines, lines_chars, lowercase, lowercase_of, owned, parse_u32, parse_u32_chars,
    push_int, push_joined_u32, push_str, signed_suffix, starts_with, str_eq, string_of,
    strip_prefix_chars, sub_chars, take_chars, take_prefix, to_chars, trim, trim_chars, views,
};

verus! {

// ─────────────────────────────── JSON lists ────────────────────────────────

/// A reply's JSON: trimmed, every leading ```` ```json ```` and trailing
/// ```` ``` ```` dropped, trimmed again.
pub open spec fn json_body(text: Seq<char>) -> Seq<char> {
    trim(strip_suffix_all(strip_prefix_all(trim(text), "```json"@), "```"@))
}

pub fn json_body_text(text: &str) -> (r: String)
    ensures
        r@ == json_body(text@),
{
    proof {
        reveal_strlit("```json");
        reveal_strlit("```");
    }
    let v = trim_chars(&to_chars(text));
    let a = strip_prefix_repeated(v, "```json");
    let b = strip_suffix_repeated(a, "```");
    string_of(&trim_chars(&b))
}

pub open spec fn opt_views(o: Option<Vec<String>>) -> Option<Seq<Seq<char>>> {
    match o {
        Some(v) => Some(views(v@)),
        None => None,
    }
}

/// What `serde_json::from_str::<Vec<String>>` makes of a text: the strings
/// of a JSON array of strings, or `None`.
pub uninterp spec fn string_array_of(text: Seq<char>) -> Option<Seq<Seq<char>>>;

/// Parses a JSON array of strings with `serde_json::from_str`; the result
/// is `string_array_of` of the text.
#[verifier::external_body]
fn parse_string_array(text: &str) -> (r: Option<Vec<String>>)
    ensures
        opt_views(r) == string_array_of(text@),
{
    serde_json::from_str::<Vec<String>>(text).ok()
}

/// A campaign file that grounds a turn when the model picks none: one about
/// the world, the party or the NPCs.
pub open spec fn is_core_file(f: Seq<char>) -> bool {
    contains(f, "world"@) || contains(f, "party"@) || contains(f, "npc"@)
}

pub open spec fn core_files(fs: Seq<Seq<char>>) -> Seq<Seq<char>>
    decreases fs.len(),
{
    if fs.len() == 0 {
        seq![]
    } else {
        let p = core_files(fs.drop_last());
        if is_core_file(fs.last()) {
            p.push(fs.last())
        } else {
            p
        }
    }
}

/// The first two core files.
pub open spec fn fallback_selection(available: Seq<Seq<char>>) -> Seq<Seq<char>> {
    let c = core_files(available);
    if c.len() <= 2 {
        c
    } else {
        c.take(2)
    }
}

fn core_files_exec(available: &Vec<String>) -> (r: Vec<String>)
    ensures
        views(r@) == core_files(views(available@)),
{
    let ghost fs = views(available@);
    let world = to_chars("world");
    let party = to_chars("party");
    let npc = to_chars("npc");
    let mut r: Vec<String> = Vec::new();
    let mut i: usize = 0;
    assert(fs.take(0) =~= Seq::<Seq<char>>::empty());
    while i < available.len()
        invariant
            i <= available.len(),
            fs == views(available@),
            world@ == "world"@,
            party@ == "party"@,
            npc@ == "npc"@,
            views(r@) == core_files(fs.take(i as int)),
        decreases available.len() - i,
    {
        proof {
            assert(fs.take(i + 1).drop_last() =~= fs.take(i as int));
            assert(fs.take(i + 1).last() == fs[i as int]);
        }
        let v = to_chars(available[i].as_str());
        if contains_chars(&v, &world) || contains_chars(&v, &party) || contains_chars(&v, &npc) {
            let ghost before = r@;
            let c = copy_string(&available[i]);
            r.push(c);
            proof {
                lemma_views_push(before, c);
            }
        }
        i += 1;
    }
    assert(fs.take(available.len() as int) =~= fs);
    r
}

/// The files to read: those the model's JSON array names, or when the reply
/// is no such array, the first two core files available.
pub fn selection_from(parsed: Option<Vec<String>>, available: &Vec<String>) -> (r: Vec<String>)
    ensures
        views(r@) == match opt_views(parsed) {
            Some(v) => v,
            None => fallback_selection(views(available@)),
        },
{
    match parsed {
        Some(v) => v,
        None => {
            let mut c = core_files_exec(available);
            if c.len() > 2 {
                let ghost before = c@;
                c.truncate(2);
                assert(views(c@) =~= views(before).take(2));
            }
            c
        },
    }
}

/// The files a model's reply selects (see [`selection_from`]).
pub fn selected_files(reply: &str, available: &Vec<String>) -> (r: Vec<String>)
    ensures
        views(r@) == match string_array_of(json_body(reply@)) {
            Some(v) => v,
            None => fallback_selection(views(available@)),
        },
{
    let body = json_body_text(reply);
    selection_from(parse_string_array(body.as_str()), available)
}

/// The dice notations a model's reply lists; none when it lists none.
pub fn dice_notations(reply: &str) -> (r: Vec<String>)
    ensures
        views(r@) == match string_array_of(json_body(reply@)) {
            Some(v) => v,
            None => Seq::<Seq<char>>::empty(),
        },
{
    let body = json_body_text(reply);
    match parse_string_array(body.as_str()) {
        Some(v) => v,
        None => {
            let r: Vec<String> = Vec::new();
            assert(views(r@) =~= Seq::<Seq<char>>::empty());
            r
        },
    }
}

// ─────────────────────────────── dice lines ────────────────────────────────

/// One rolled notation: `{notation} → [{rolls}]{±modifier} = **{total}**`.
pub open spec fn dice_line(notation: Seq<char>, rolls: Seq<u32>, modifier: int, total: int) -> Seq<char> {
    notation + " → ["@ + join(decimals(rolls), ", "@) + "]"@ + signed_suffix(modifier) + " = **"@
        + int_text(total) + "**"@
}

pub fn dice_roll_line(notation: &str, rolls: &Vec<u32>, modifier: i32, total: i32) -> (r: String)
    ensures
        r@ == dice_line(notation@, rolls@, modifier as int, total as int),
{
    let mut r = owned(notation);
    push_str(&mut r, " → [");
    push_joined_u32(&mut r, rolls, ", ");
    push_str(&mut r, "]");
    push_signed_suffix(&mut r, modifier);
    push_str(&mut r, " = **");
    push_int(&mut r, total as i64);
    push_str(&mut r, "**");
    r
}

/// The dice results of a turn: one line each, or `No dice rolled.`.
pub open spec fn dice_summary(lines: Seq<Seq<char>>) -> Seq<char> {
    if lines.len() == 0 {
        "No dice rolled."@
    } else {
        join(lines, "\n"@)
    }
}

pub fn dice_summary_text(lines: &Vec<String>) -> (r: String)
    ensures
        r@ == dice_summary(views(lines@)),
{
    if lines.len() == 0 {
        owned("No dice rolled.")
    } else {
        join_strings(lines, "\n")
    }
}

// ─────────────────────────────── queries ───────────────────────────────────

/// Leading and trailing `"` removed.
pub open spec fn unquoted(s: Seq<char>) -> Seq<char>
    decreases s.len(),
{
    if s.len() > 0 && s[0] == '"' {
        unquoted(s.drop_first())
    } else if s.len() > 0 && s.last() == '"' {
        unquoted(s.drop_last())
    } else {
        s
    }
}

/// A model's rulebook query: trimmed, then its surrounding quotes dropped.
pub fn clean_query(reply: &str) -> (r: String)
    ensures
        r@ == unquoted(trim(reply@)),
{
    let mut v = trim_chars(&to_chars(reply));
    loop
        invariant
            unquoted(v@) == unquoted(trim(reply@)),
        ensures
            unquoted(v@) == unquoted(trim(reply@)),
            !(v@.len() > 0 && v@[0] == '"'),
            !(v@.len() > 0 && v@.last() == '"'),
        decreases v.len(),
    {
        if v.len() > 0 && v[0] == '"' {
            let n = v.len();
            let w = crate::text::sub_chars(&v, 1, n);
            assert(w@ =~= v@.drop_first());
            v = w;
        } else if v.len() > 0 && v[v.len() - 1] == '"' {
            let n = v.len() - 1;
            let w = crate::text::sub_chars(&v, 0, n);
            assert(w@ =~= v@.drop_last());
            v = w;
        } else {
            break;
        }
    }
    string_of(&v)
}

// ─────────────────────────────── definitions ───────────────────────────────

/// What the endpoints look at in an agent definition.
pub struct DefinitionInfo {
    pub name: String,
    pub campaign_dir: Option<String>,
    pub has_deployed_context: bool,
}

pub open spec fn dir_view(d: DefinitionInfo) -> Option<Seq<char>> {
    match d.campaign_dir {
        Some(c) => Some(c@),
        None => None,
    }
}

/// A rule consultant for a campaign: named so, deployed with a context, and
/// set to a campaign directory that ends with the campaign's name.
pub open spec fn consults_for(d: DefinitionInfo, campaign: Seq<char>) -> bool {
    contains(d.name@, "Rule Consultant"@) && d.has_deployed_context && match dir_view(d) {
        Some(c) => ends_with(c, campaign),
        None => false,
    }
}

pub open spec fn consultant_pred(campaign: Seq<char>) -> spec_fn(DefinitionInfo) -> bool {
    |d: DefinitionInfo| consults_for(d, campaign)
}

/// The first definition that is the campaign's rule consultant.
pub fn rule_consultant(defs: &Vec<DefinitionInfo>, campaign: &str) -> (r: Option<usize>)
    ensures
        match r {
            Some(i) => first_index(defs@, consultant_pred(campaign@)) == Some(i as int),
            None => first_index(defs@, consultant_pred(campaign@)) is None,
        },
{
    let label = to_chars("Rule Consultant");
    let cv = to_chars(campaign);
    let mut i: usize = 0;
    assert(defs@.take(0) =~= Seq::<DefinitionInfo>::empty());
    while i < defs.len()
        invariant
            i <= defs.len(),
            label@ == "Rule Consultant"@,
            cv@ == campaign@,
            first_index(defs@.take(i as int), consultant_pred(campaign@)) is None,
        decreases defs.len() - i,
    {
        proof {
            lemma_first_index_step(defs@, consultant_pred(campaign@), i as int);
        }
        let d = &defs[i];
        let named = contains_chars(&to_chars(d.name.as_str()), &label);
        let in_dir = match &d.campaign_dir {
            Some(c) => crate::text::ends_with_chars(&to_chars(c.as_str()), &cv),
            None => false,
        };
        if named && d.has_deployed_context && in_dir {
            return Some(i);
        }
        i += 1;
    }
    assert(defs@.take(defs.len() as int) =~= defs@);
    None
}

/// A definition that looks like a game master: its lowercased name holds
/// `dm` or `dungeon`.
pub open spec fn is_dm_name(name: Seq<char>) -> bool {
    contains(lowercase_of(name), "dm"@) || contains(lowercase_of(name), "dungeon"@)
}

pub open spec fn dm_pred() -> spec_fn(Seq<char>) -> bool {
    |n: Seq<char>| is_dm_name(n)
}

/// The definition that runs a scene: the first DM-like one, else the first.
pub open spec fn dm_choice(names: Seq<Seq<char>>) -> Option<int> {
    match first_index(names, dm_pred()) {
        Some(i) => Some(i),
        None => if names.len() > 0 { Some(0) } else { None },
    }
}

pub fn dm_definition(names: &Vec<String>) -> (r: Option<usize>)
    ensures
        match r {
            Some(i) => dm_choice(views(names@)) == Some(i as int),
            None => dm_choice(views(names@)) is None,
        },
{
    let ghost ns = views(names@);
    let dm = to_chars("dm");
    let dungeon = to_chars("dungeon");
    let mut i: usize = 0;
    assert(ns.take(0) =~= Seq::<Seq<char>>::empty());
    while i < names.len()
        invariant
            i <= names.len(),
            ns == views(names@),
            dm@ == "dm"@,
            dungeon@ == "dungeon"@,
            first_index(ns.take(i as int), dm_pred()) is None,
        decreases names.len() - i,
    {
        proof {
            lemma_first_index_step(ns, dm_pred(), i as int);
        }
        let low = lowercase(names[i].as_str());
        let lv = to_chars(low.as_str());
        assert(ns[i as int] == names@[i as int]@);
        if contains_chars(&lv, &dm) || contains_chars(&lv, &dungeon) {
            return Some(i);
        }
        i += 1;
    }
    assert(ns.take(names.len() as int) =~= ns);
    if names.len() > 0 {
        Some(0)
    } else {
        None
    }
}

// ─────────────────────────────── sessions and scenes ───────────────────────

/// A eucatastrophe needs at least five sessions behind it.
pub fn eucatastrophe_ready(sessions: usize) -> (r: bool)
    ensures
        r == (sessions >= 5),
{
    sessions >= 5
}

/// Why a eucatastrophe cannot run yet.
pub fn eucatastrophe_shortfall(sessions: usize) -> (r: String)
    ensures
        r@ == "Eucatastrophe requires 5+ completed sessions — found "@ + decimal(sessions as nat),
{
    let mut r = owned("Eucatastrophe requires 5+ completed sessions — found ");
    crate::text::push_u64(&mut r, sessions as u64);
    r
}

/// The per-session material the eucatastrophe reads: `=== {session} ===`
/// and the first 1200 characters of each, separated by blank lines.
pub open spec fn session_archive(materials: Seq<(Seq<char>, Seq<char>)>) -> Seq<char> {
    join(
        materials.map_values(|m: (Seq<char>, Seq<char>)| "=== "@ + m.0 + " ===\n"@ + take_chars(m.1, 1200)),
        "\n\n"@,
    )
}

pub open spec fn material_views(v: Seq<(String, String)>) -> Seq<(Seq<char>, Seq<char>)> {
    v.map_values(|m: (String, String)| (m.0@, m.1@))
}

pub fn session_archive_text(materials: &Vec<(String, String)>) -> (r: String)
    ensures
        r@ == session_archive(material_views(materials@)),
{
    let ghost want = material_views(materials@).map_values(
        |m: (Seq<char>, Seq<char>)| "=== "@ + m.0 + " ===\n"@ + take_chars(m.1, 1200),
    );
    let mut parts: Vec<String> = Vec::new();
    let mut i: usize = 0;
    while i < materials.len()
        invariant
            i <= materials.len(),
            want == material_views(materials@).map_values(
                |m: (Seq<char>, Seq<char>)| "=== "@ + m.0 + " ===\n"@ + take_chars(m.1, 1200),
            ),
            views(parts@) == want.take(i as int),
        decreases materials.len() - i,
    {
        let (s, t) = &materials[i];
        let mut e = owned("=== ");
        push_str(&mut e, s.as_str());
        push_str(&mut e, " ===\n");
        let head = take_prefix(t.as_str(), 1200);
        push_str(&mut e, head.as_str());
        proof {
            lemma_views_push(parts@, e);
        }
        parts.push(e);
        assert(want.take(i + 1) =~= want.take(i as int).push(want[i as int]));
        i += 1;
    }
    assert(want.take(materials.len() as int) =~= want);
    join_strings(&parts, "\n\n")
}

/// The session a eucatastrophe opens after the last one: `session{N+1}`
/// after `session{N}`, else `{last}_euca`.
pub open spec fn euca_session(last: Seq<char>) -> Seq<char> {
    if starts_with(last, "session"@) {
        match parse_u32(last.skip(7)) {
            Some(n) => "session"@ + decimal((n + 1) as nat),
            None => last + "_euca"@,
        }
    } else {
        last + "_euca"@
    }
}

/// Whether [`euca_session_name`] is defined: the last session is not
/// `session{u32::MAX}`.
pub fn euca_session_fits(last: &str) -> (r: bool)
    ensures
        r == next_session_defined(last@),
{
    next_session_fits(last)
}

pub fn euca_session_name(last: &str) -> (r: String)
    requires
        next_session_defined(last@),
    ensures
        r@ == euca_session(last@),
{
    match session_number(last) {
        Some(n) => {
            let mut r = owned("session");
            crate::text::push_u64(&mut r, n as u64 + 1);
            r
        },
        None => {
            let mut r = owned(last);
            push_str(&mut r, "_euca");
            r
        },
    }
}

/// The number of a `scene{N}` directory.
pub open spec fn scene_number(name: Seq<char>) -> Option<u32> {
    if starts_with(name, "scene"@) {
        parse_u32(name.skip(5))
    } else {
        None
    }
}

/// The highest scene number among the directories, 0 when there is none.
pub open spec fn max_scene(dirs: Seq<Seq<char>>) -> nat
    decreases dirs.len(),
{
    if dirs.len() == 0 {
        0
    } else {
        let m = max_scene(dirs.drop_last());
        match scene_number(dirs.last()) {
            Some(n) => if n > m { n as nat } else { m },
            None => m,
        }
    }
}

fn scene_number_of(name: &str) -> (r: Option<u32>)
    ensures
        r == scene_number(name@),
{
    proof {
        reveal_strlit("scene");
    }
    match strip_prefix_chars(&to_chars(name), "scene") {
        Some(rest) => parse_u32_chars(&rest),
        None => None,
    }
}

fn highest_scene(dirs: &Vec<String>) -> (r: u32)
    ensures
        r == max_scene(views(dirs@)),
{
    let ghost ds = views(dirs@);
    let mut m: u32 = 0;
    let mut i: usize = 0;
    assert(ds.take(0) =~= Seq::<Seq<char>>::empty());
    while i < dirs.len()
        invariant
            i <= dirs.len(),
            ds == views(dirs@),
            m == max_scene(ds.take(i as int)),
        decreases dirs.len() - i,
    {
        proof {
            assert(ds.take(i + 1).drop_last() =~= ds.take(i as int));
            assert(ds.take(i + 1).last() == ds[i as int]);
        }
        assert(ds[i as int] == dirs@[i as int]@);
        match scene_number_of(dirs[i].as_str()) {
            Some(n) => {
                if n > m {
                    m = n;
                }
            },
            None => {},
        }
        i += 1;
    }
    assert(ds.take(dirs.len() as int) =~= ds);
    m
}

/// Whether [`next_scene_name`] is defined: no `scene{u32::MAX}` directory.
pub fn next_scene_fits(dirs: &Vec<String>) -> (r: bool)
    ensures
        r == (max_scene(views(dirs@)) < u32::MAX),
{
    highest_scene(dirs) < u32::MAX
}

/// The name of a new scene: one past the highest `scene{N}` directory.
pub fn next_scene_name(dirs: &Vec<String>) -> (r: String)
    requires
        max_scene(views(dirs@)) < u32::MAX,
    ensures
        r@ == "scene"@ + decimal(max_scene(views(dirs@)) + 1),
{
    let m = highest_scene(dirs);
    let mut r = owned("scene");
    crate::text::push_u64(&mut r, m as u64 + 1);
    r
}

// ─────────────────────────────── the grace moment ──────────────────────────

/// A line with its dashes and surrounding whitespace removed.
pub open spec fn bare(l: Seq<char>) -> Seq<char> {
    trim(trim_start_char(trim(l), '-'))
}

/// The `MOMENT:` line of a grace finding (in any ASCII letter case).
pub open spec fn is_moment_line(l: Seq<char>) -> bool {
    bare(l).len() >= 7 && eq_ignore_ascii_case(bare(l).take(7), "MOMENT:"@)
}

pub open spec fn moment_pred() -> spec_fn(Seq<char>) -> bool {
    |l: Seq<char>| is_moment_line(l)
}

pub open spec fn nonblank_pred() -> spec_fn(Seq<char>) -> bool {
    |l: Seq<char>| trim(l).len() > 0
}

/// What follows the first `MOMENT:` label: the text after it on its line,
/// else the next non-blank line (bared); empty when there is no label.
pub open spec fn moment_found(ls: Seq<Seq<char>>) -> Seq<char> {
    match first_index(ls, moment_pred()) {
        Some(i) => {
            let inline = trim(bare(ls[i]).skip(7));
            if inline.len() > 0 {
                inline
            } else {
                let rest = ls.skip(i + 1);
                match first_index(rest, nonblank_pred()) {
                    Some(j) => bare(rest[j]),
                    None => seq![],
                }
            }
        },
        None => seq![],
    }
}

/// The grace moment a scene is built on, `an unexpected arrival` when the
/// finding names none.
pub open spec fn moment_of(grace: Seq<char>) -> Seq<char> {
    let f = moment_found(lines(grace));
    if f.len() == 0 {
        "an unexpected arrival"@
    } else {
        f
    }
}

fn bare_chars(v: &Vec<char>) -> (r: Vec<char>)
    ensures
        r@ == bare(v@),
{
    let t = trim_chars(v);
    let mut k: usize = 0;
    assert(t@.skip(0) =~= t@);
    while k < t.len() && t[k] == '-'
        invariant
            k <= t.len(),
            trim_start_char(t@, '-') == trim_start_char(t@.skip(k as int), '-'),
        decreases t.len() - k,
    {
        proof {
            let u = t@.skip(k as int);
            assert(u.drop_first() =~= t@.skip(k + 1));
        }
        k += 1;
    }
    let n = t.len();
    let rest = sub_chars(&t, k, n);
    assert(rest@ =~= t@.skip(k as int));
    trim_chars(&rest)
}

fn moment_found_exec(ls: &Vec<Vec<char>>) -> (r: Vec<char>)
    ensures
        r@ == moment_found(deep(ls@)),
{
    let ghost d = deep(ls@);
    let label = to_chars("MOMENT:");
    let mut i: usize = 0;
    assert(d.take(0) =~= Seq::<Seq<char>>::empty());
    while i < ls.len()
        invariant
            i <= ls.len(),
            d == deep(ls@),
            label@ == "MOMENT:"@,
            first_index(d.take(i as int), moment_pred()) is None,
        decreases ls.len() - i,
    {
        proof {
            lemma_first_index_step(d, moment_pred(), i as int);
            reveal_strlit("MOMENT:");
        }
        assert(d[i as int] == ls@[i as int]@);
        let b = bare_chars(&ls[i]);
        if b.len() >= 7 {
            let head = sub_chars(&b, 0, 7);
            assert(head@ =~= b@.take(7));
            if chars_eq_ignore_ascii_case(&head, &label) {
                assert(moment_pred()(d[i as int]));
                assert(first_index(d, moment_pred()) == Some(i as int));
                let n = b.len();
                let after = sub_chars(&b, 7, n);
                assert(after@ =~= b@.skip(7));
                let inline = trim_chars(&after);
                if inline.len() > 0 {
                    return inline;
                }
                assert(trim(bare(d[i as int]).skip(7)).len() == 0);
                let ghost rest = d.skip(i + 1);
                let mut j: usize = i + 1;
                assert(rest.take(0) =~= Seq::<Seq<char>>::empty());
                while j < ls.len()
                    invariant
                        i < j <= ls.len(),
                        d == deep(ls@),
                        rest == d.skip(i + 1),
                        first_index(rest.take(j - i - 1), nonblank_pred()) is None,
                        trim(bare(d[i as int]).skip(7)).len() == 0,
                        first_index(d, moment_pred()) == Some(i as int),
                    decreases ls.len() - j,
                {
                    proof {
                        lemma_first_index_step(rest, nonblank_pred(), j - i - 1);
                        assert(rest[j - i - 1] == d[j as int]);
                    }
                    assert(d[j as int] == ls@[j as int]@);
                    let t = trim_chars(&ls[j]);
                    if t.len() > 0 {
                        assert(nonblank_pred()(rest[j - i - 1]));
                        assert(first_index(rest, nonblank_pred()) == Some(j - i - 1));
                        return bare_chars(&ls[j]);
                    }
                    j += 1;
                }
                assert(rest.take(ls.len() - i - 1) =~= rest);
                return Vec::new();
            }
        }
        i += 1;
    }
    assert(d.take(ls.len() as int) =~= d);
    Vec::new()
}

/// The grace moment of a finding (see [`moment_of`]).
pub fn moment_line(grace: &str) -> (r: String)
    ensures
        r@ == moment_of(grace@),
{
    let ls = lines_chars(&to_chars(grace));
    let f = moment_found_exec(&ls);
    if f.len() == 0 {
        owned("an unexpected arrival")
    } else {
        string_of(&f)
    }
}

// ─────────────────────────────── world facts ───────────────────────────────

/// One world file's section: `--- {LABEL} ---` and its first 600 characters.
pub open spec fn world_section(label: Seq<char>, text: Option<Seq<char>>) -> Seq<Seq<char>> {
    match text {
        Some(t) => seq!["--- "@ + label + " ---\n"@ + take_chars(t, 600)],
        None => seq![],
    }
}

/// What the planner is told of the campaign: `CAMPAIGN: {name}.` and the
/// party, setting and NPC files that exist, or a note that none do; the
/// parts separated by blank lines.
pub open spec fn world_facts(name: Seq<char>, party: Option<Seq<char>>, setting: Option<Seq<char>>, npcs: Option<Seq<char>>) -> Seq<char> {
    let found = world_section("PARTY"@, party) + world_section("SETTING"@, setting) + world_section("NPCS"@, npcs);
    let fallback = if found.len() == 0 {
        seq!["(No world files found. Use only information from the DM intent.)"@]
    } else {
        Seq::<Seq<char>>::empty()
    };
    join(seq!["CAMPAIGN: "@ + name + "."@] + found + fallback, "\n\n"@)
}

pub open spec fn opt_str(o: Option<&str>) -> Option<Seq<char>> {
    match o {
        Some(s) => Some(s@),
        None => None,
    }
}

fn push_section(parts: &mut Vec<String>, label: &str, text: Option<&str>)
    ensures
        views(final(parts)@) == views(old(parts)@) + world_section(label@, opt_str(text)),
{
    match text {
        Some(t) => {
            let mut e = owned("--- ");
            push_str(&mut e, label);
            push_str(&mut e, " ---\n");
            let head = take_prefix(t, 600);
            push_str(&mut e, head.as_str());
            let ghost before = parts@;
            parts.push(e);
            proof {
                lemma_views_push(before, e);
            }
            assert(views(parts@) =~= views(before) + world_section(label@, opt_str(text)));
        },
        None => {
            assert(views(parts@) =~= views(parts@) + world_section(label@, opt_str(text)));
        },
    }
}

pub fn world_facts_text(name: &str, party: Option<&str>, setting: Option<&str>, npcs: Option<&str>) -> (r: String)
    ensures
        r@ == world_facts(name@, opt_str(party), opt_str(setting), opt_str(npcs)),
{
    let mut head = owned("CAMPAIGN: ");
    push_str(&mut head, name);
    push_str(&mut head, ".");
    let mut parts: Vec<String> = vec![head];
    assert(views(parts@) =~= seq!["CAMPAIGN: "@ + name@ + "."@]);
    push_section(&mut parts, "PARTY", party);
    push_section(&mut parts, "SETTING", setting);
    push_section(&mut parts, "NPCS", npcs);
    let ghost found = world_section("PARTY"@, opt_str(party)) + world_section("SETTING"@, opt_str(setting))
        + world_section("NPCS"@, opt_str(npcs));
    assert(views(parts@) =~= seq!["CAMPAIGN: "@ + name@ + "."@] + found);
    if parts.len() == 1 {
        let ghost before = parts@;
        let note = owned("(No world files found. Use only information from the DM intent.)");
        parts.push(note);
        proof {
            lemma_views_push(before, note);
        }
        assert(found.len() == 0);
        assert(views(parts@) =~= seq!["CAMPAIGN: "@ + name@ + "."@] + found
            + seq!["(No world files found. Use only information from the DM intent.)"@]);
    } else {
        assert(views(parts@) =~= seq!["CAMPAIGN: "@ + name@ + "."@] + found + Seq::<Seq<char>>::empty());
    }
    join_strings(&parts, "\n\n")
}

/// The definition that opens a scene in a campaign: the first whose
/// campaign directory the campaign's path ends with, or which ends with the
/// campaign's name; else the first whose lowercased name holds `dm`; else
/// the first.
pub open spec fn serves_campaign(d: DefinitionInfo, path: Seq<char>, name: Seq<char>) -> bool {
    match dir_view(d) {
        Some(c) => ends_with(path, c) || ends_with(c, name),
        None => false,
    }
}

pub open spec fn campaign_pred(path: Seq<char>, name: Seq<char>) -> spec_fn(DefinitionInfo) -> bool {
    |d: DefinitionInfo| serves_campaign(d, path, name)
}

pub open spec fn dm_named_pred() -> spec_fn(DefinitionInfo) -> bool {
    |d: DefinitionInfo| contains(lowercase_of(d.name@), "dm"@)
}

pub open spec fn scene_choice(defs: Seq<DefinitionInfo>, path: Seq<char>, name: Seq<char>) -> Option<int> {
    match first_index(defs, campaign_pred(path, name)) {
        Some(i) => Some(i),
        None => match first_index(defs, dm_named_pred()) {
            Some(i) => Some(i),
            None => if defs.len() > 0 { Some(0) } else { None },
        },
    }
}

pub fn scene_definition(defs: &Vec<DefinitionInfo>, campaign_path: &str, campaign_name: &str) -> (r: Option<usize>)
    ensures
        match r {
            Some(i) => scene_choice(defs@, campaign_path@, campaign_name@) == Some(i as int),
            None => scene_choice(defs@, campaign_path@, campaign_name@) is None,
        },
{
    let pv = to_chars(campaign_path);
    let nv = to_chars(campaign_name);
    let mut i: usize = 0;
    assert(defs@.take(0) =~= Seq::<DefinitionInfo>::empty());
    while i < defs.len()
        invariant
            i <= defs.len(),
            pv@ == campaign_path@,
            nv@ == campaign_name@,
            first_index(defs@.take(i as int), campaign_pred(campaign_path@, campaign_name@)) is None,
        decreases defs.len() - i,
    {
        proof {
            lemma_first_index_step(defs@, campaign_pred(campaign_path@, campaign_name@), i as int);
        }
        let hit = match &defs[i].campaign_dir {
            Some(c) => {
                let cv = to_chars(c.as_str());
                crate::text::ends_with_chars(&pv, &cv) || crate::text::ends_with_chars(&cv, &nv)
            },
            None => false,
        };
        if hit {
            return Some(i);
        }
        i += 1;
    }
    assert(defs@.take(defs.len() as int) =~= defs@);
    let dm = to_chars("dm");
    let mut k: usize = 0;
    assert(defs@.take(0) =~= Seq::<DefinitionInfo>::empty());
    while k < defs.len()
        invariant
            k <= defs.len(),
            dm@ == "dm"@,
            first_index(defs@, campaign_pred(campaign_path@, campaign_name@)) is None,
            first_index(defs@.take(k as int), dm_named_pred()) is None,
        decreases defs.len() - k,
    {
        proof {
            lemma_first_index_step(defs@, dm_named_pred(), k as int);
        }
        let low = lowercase(defs[k].name.as_str());
        if contains_chars(&to_chars(low.as_str()), &dm) {
            return Some(k);
        }
        k += 1;
    }
    assert(defs@.take(defs.len() as int) =~= defs@);
    if defs.len() > 0 {
        Some(0)
    } else {
        None
    }
}

} // verus!
