//! Names and paths accepted by the campaign API, where a campaign lives, and
//! the lines appended to a campaign's session notes.
use vstd::prelude::*;

use crate::dto::{CampaignFile, CampaignInfo};
use crate::text::{
    contains, contains_chars, copy_string, first_index, key_before, lemma_first_index, lemma_name_order_total,
    lemma_views_push, name_order, order_by_key, owned, push_str, sort_strings, sorted_names, str_eq, string_of,
    to_chars, trim, trim_chars, views,
};
use crate::tools::path_join;

verus! {

/// A campaign or session name: not empty, no backslash, no `..`.
pub open spec fn name_ok(name: Seq<char>) -> bool {
    name.len() > 0 && !name.contains('\\') && !contains(name, ".."@)
}

fn has_char(v: &Vec<char>, c: char) -> (r: bool)
    ensures
        r == v@.contains(c),
{
    let mut i: usize = 0;
    while i < v.len()
        invariant
            i <= v.len(),
            forall|k: int| 0 <= k < i ==> v@[k] != c,
        decreases v.len() - i,
    {
        if v[i] == c {
            return true;
        }
        i += 1;
    }
    false
}

/// Whether a campaign or session name is acceptable (see [`name_ok`]).
pub fn safe_name(name: &str) -> (r: bool)
    ensures
        r == name_ok(name@),
{
    let v = to_chars(name);
    let dots = to_chars("..");
    v.len() > 0 && !has_char(&v, '\\') && !contains_chars(&v, &dots)
}

/// `char::is_alphanumeric`: alphabetic or numeric in Unicode's sense.
pub uninterp spec fn alphanumeric(c: char) -> bool;

/// `c.is_alphanumeric()`.
///
/// Stated for ASCII, where std's documentation makes alphanumeric exactly
/// the letters and digits; beyond ASCII the answer is only named.
#[verifier::external_body]
fn is_alphanumeric(c: char) -> (r: bool)
    ensures
        r == alphanumeric(c),
        (c as u32) < 128 ==> (r <==> (('a' <= c && c <= 'z') || ('A' <= c && c <= 'Z') || ('0' <= c && c <= '9'))),
{
    c.is_alphanumeric()
}

/// A character allowed in a campaign file path.
pub open spec fn path_char_ok(c: char) -> bool {
    alphanumeric(c) || c == '/' || c == '.' || c == '_' || c == '-' || c == ' '
}

/// A path within a campaign: a name as [`name_ok`] has it, made only of
/// letters, digits, `/`, `.`, `_`, `-` and spaces.
pub open spec fn path_ok(path: Seq<char>) -> bool {
    name_ok(path) && forall|i: int| 0 <= i < path.len() ==> #[trigger] path_char_ok(path[i])
}

/// Whether a path within a campaign is acceptable (see [`path_ok`]).
pub fn safe_path(path: &str) -> (r: bool)
    ensures
        r == path_ok(path@),
{
    if !safe_name(path) {
        return false;
    }
    let v = to_chars(path);
    let mut i: usize = 0;
    while i < v.len()
        invariant
            i <= v.len(),
            v@ == path@,
            forall|k: int| 0 <= k < i ==> #[trigger] path_char_ok(v@[k]),
        decreases v.len() - i,
    {
        let c = v[i];
        let ok = is_alphanumeric(c) || c == '/' || c == '.' || c == '_' || c == '-' || c == ' ';
        if !ok {
            assert(!path_char_ok(v@[i as int]));
            return false;
        }
        i += 1;
    }
    true
}

/// Where a campaign's local copy would be: `{data}/local/campaigns/{name}`.
pub open spec fn local_campaign_dir(data_dir: Seq<char>, name: Seq<char>) -> Seq<char> {
    path_join(path_join(path_join(data_dir, "local"@), "campaigns"@), name)
}

/// Where a shared campaign lives: `{data}/campaigns/{name}`.
pub open spec fn shared_campaign_dir(data_dir: Seq<char>, name: Seq<char>) -> Seq<char> {
    path_join(path_join(data_dir, "campaigns"@), name)
}

fn join_path(base: &String, rel: &str) -> (r: String)
    ensures
        r@ == path_join(base@, rel@),
{
    let v = to_chars(base.as_str());
    if v.len() == 0 {
        owned(rel)
    } else if v[v.len() - 1] == '/' {
        let mut r = owned(base.as_str());
        push_str(&mut r, rel);
        r
    } else {
        let mut r = owned(base.as_str());
        push_str(&mut r, "/");
        push_str(&mut r, rel);
        r
    }
}

/// The directory of a campaign: the local copy when it exists, which keeps
/// local-only campaigns out of the shared tree; else the shared one.
pub fn campaign_root(data_dir: &str, name: &str, local_exists: bool) -> (r: String)
    ensures
        r@ == if local_exists { local_campaign_dir(data_dir@, name@) } else { shared_campaign_dir(data_dir@, name@) },
{
    let d = owned(data_dir);
    if local_exists {
        let a = join_path(&d, "local");
        let b = join_path(&a, "campaigns");
        join_path(&b, name)
    } else {
        let a = join_path(&d, "campaigns");
        join_path(&a, name)
    }
}

/// The local copy's directory, whose existence decides [`campaign_root`].
pub fn local_campaign_path(data_dir: &str, name: &str) -> (r: String)
    ensures
        r@ == local_campaign_dir(data_dir@, name@),
{
    campaign_root(data_dir, name, true)
}

/// Why a note was refused.
pub enum NoteError {
    /// The note holds nothing but whitespace.
    Empty,
}

/// `**[{time}]** {note}` and a blank line, the note trimmed.
pub open spec fn note_line(time: Seq<char>, text: Seq<char>) -> Seq<char> {
    "**["@ + time + "]** "@ + trim(text) + "\n\n"@
}

/// The line a player's note adds to the session notes; a blank note is refused.
pub fn note_entry(time: &str, text: &str) -> (r: Result<String, NoteError>)
    ensures
        trim(text@).len() == 0 ==> r is Err,
        trim(text@).len() > 0 ==> (r matches Ok(l) && l@ == note_line(time@, text@)),
{
    let t = trim_chars(&to_chars(text));
    if t.len() == 0 {
        return Err(NoteError::Empty);
    }
    let mut r = owned("**[");
    push_str(&mut r, time);
    push_str(&mut r, "]** ");
    let ts = string_of(&t);
    push_str(&mut r, ts.as_str());
    push_str(&mut r, "\n\n");
    Ok(r)
}

/// `**[{time}] {prefix}** {text}` and a blank line: a note the pipeline
/// writes itself.
pub fn labelled_note(time: &str, prefix: &str, text: &str) -> (r: String)
    ensures
        r@ == "**["@ + time@ + "] "@ + prefix@ + "** "@ + text@ + "\n\n"@,
{
    let mut r = owned("**[");
    push_str(&mut r, time);
    push_str(&mut r, "] ");
    push_str(&mut r, prefix);
    push_str(&mut r, "** ");
    push_str(&mut r, text);
    push_str(&mut r, "\n\n");
    r
}

// ─────────────────────────────── listing ───────────────────────────────────

pub open spec fn sightings(v: Seq<(String, usize)>) -> Seq<(Seq<char>, usize)> {
    v.map_values(|p: (String, usize)| (p.0@, p.1))
}

pub open spec fn names_of(v: Seq<(Seq<char>, usize)>) -> Seq<Seq<char>> {
    v.map_values(|p: (Seq<char>, usize)| p.0)
}

/// The campaigns seen, each name once: its first sighting counts (shared
/// campaigns are scanned before local ones).
pub open spec fn first_sightings(v: Seq<(Seq<char>, usize)>) -> Seq<(Seq<char>, usize)>
    decreases v.len(),
{
    if v.len() == 0 {
        seq![]
    } else {
        let p = first_sightings(v.drop_last());
        if names_of(p).contains(v.last().0) {
            p
        } else {
            p.push(v.last())
        }
    }
}

pub open spec fn is_name(n: Seq<char>) -> spec_fn(Seq<char>) -> bool {
    |m: Seq<char>| m == n
}

/// The file count of a campaign seen under `n`.
pub open spec fn count_for(d: Seq<(Seq<char>, usize)>, n: Seq<char>) -> usize {
    match first_index(names_of(d), is_name(n)) {
        Some(i) => d[i].1,
        None => 0,
    }
}

/// The campaign list: each campaign once, by name in `str` order, with the
/// file count of its first sighting.
pub open spec fn listing_of(v: Seq<(Seq<char>, usize)>) -> Seq<(Seq<char>, usize)> {
    let d = first_sightings(v);
    sorted_names(names_of(d)).map_values(|n: Seq<char>| (n, count_for(d, n)))
}

pub open spec fn info_views(v: Seq<CampaignInfo>) -> Seq<(Seq<char>, usize)> {
    v.map_values(|c: CampaignInfo| (c.name@, c.file_count))
}

/// The campaigns found by scanning the shared, then the local campaign
/// directories, each with its file count, as the campaign list (see
/// [`listing_of`]).
pub fn campaign_listing(found: &Vec<(String, usize)>) -> (r: Vec<CampaignInfo>)
    ensures
        info_views(r@) == listing_of(sightings(found@)),
{
    let ghost f = sightings(found@);
    let mut names: Vec<String> = Vec::new();
    let mut counts: Vec<usize> = Vec::new();
    let mut i: usize = 0;
    assert(f.take(0) =~= Seq::<(Seq<char>, usize)>::empty());
    while i < found.len()
        invariant
            i <= found.len(),
            f == sightings(found@),
            names.len() == counts.len(),
            views(names@) == names_of(first_sightings(f.take(i as int))),
            forall|k: int| 0 <= k < counts.len() ==> #[trigger] counts@[k] == first_sightings(f.take(i as int))[k].1,
            first_sightings(f.take(i as int)).len() == names.len(),
        decreases found.len() - i,
    {
        let ghost before = first_sightings(f.take(i as int));
        proof {
            assert(f.take(i + 1).drop_last() =~= f.take(i as int));
            assert(f.take(i + 1).last() == f[i as int]);
        }
        let name = &found[i].0;
        let mut seen = false;
        let mut k: usize = 0;
        while k < names.len()
            invariant
                k <= names.len(),
                seen <==> exists|j: int| 0 <= j < k && names@[j]@ == name@,
            decreases names.len() - k,
        {
            if str_eq(names[k].as_str(), name.as_str()) {
                seen = true;
            }
            k += 1;
        }
        proof {
            if seen {
                let j = choose|j: int| 0 <= j < names.len() && names@[j]@ == name@;
                assert(views(names@)[j] == name@);
                assert(names_of(before).contains(name@));
            } else {
                assert forall|j: int| 0 <= j < names_of(before).len() implies names_of(before)[j] != name@ by {
                    assert(views(names@)[j] == names@[j]@);
                }
            }
        }
        if !seen {
            let ghost nb = names@;
            let c = copy_string(name);
            names.push(c);
            counts.push(found[i].1);
            proof {
                lemma_views_push(nb, c);
                assert(names_of(before.push(f[i as int])) =~= names_of(before).push(name@));
            }
        }
        i += 1;
    }
    assert(f.take(found.len() as int) =~= f);
    let ghost d = first_sightings(f);
    let sorted = sort_strings(&names);
    proof {
        lemma_name_order_total();
        names_of(d).lemma_sort_by_ensures(name_order());
    }
    let mut r: Vec<CampaignInfo> = Vec::new();
    let mut j: usize = 0;
    while j < sorted.len()
        invariant
            j <= sorted.len(),
            d == first_sightings(f),
            views(names@) == names_of(d),
            names.len() == counts.len(),
            d.len() == names.len(),
            forall|k: int| 0 <= k < counts.len() ==> #[trigger] counts@[k] == d[k].1,
            views(sorted@) == sorted_names(names_of(d)),
            forall|x: Seq<char>| !names_of(d).contains(x) ==> !(#[trigger] sorted_names(names_of(d)).contains(x)),
            info_views(r@) == sorted_names(names_of(d)).take(j as int).map_values(|n: Seq<char>| (n, count_for(d, n))),
        decreases sorted.len() - j,
    {
        let s = &sorted[j];
        assert(views(sorted@)[j as int] == s@);
        assert(sorted_names(names_of(d)).contains(s@));
        let ghost nd = names_of(d);
        let mut k: usize = 0;
        assert(nd.take(0) =~= Seq::<Seq<char>>::empty());
        while k < names.len() && !str_eq(names[k].as_str(), s.as_str())
            invariant
                k <= names.len(),
                nd == views(names@),
                first_index(nd.take(k as int), is_name(s@)) is None,
            decreases names.len() - k,
        {
            proof {
                crate::text::lemma_first_index_step(nd, is_name(s@), k as int);
                assert(nd[k as int] == names@[k as int]@);
            }
            k += 1;
        }
        proof {
            lemma_first_index(nd, is_name(s@));
            if k == names.len() {
                assert(nd.take(k as int) =~= nd);
                let w = choose|w: int| 0 <= w < nd.len() && nd[w] == s@;
                assert(is_name(s@)(nd[w]));
            }
            assert(k < names.len());
            assert(nd[k as int] == names@[k as int]@);
            crate::text::lemma_first_index_step(nd, is_name(s@), k as int);
        }
        assert(first_index(nd, is_name(s@)) == Some(k as int));
        let ghost rb = r@;
        let info = CampaignInfo { name: copy_string(s), file_count: counts[k] };
        r.push(info);
        proof {
            let want = sorted_names(names_of(d));
            assert(want.take(j + 1) =~= want.take(j as int).push(want[j as int]));
            assert(info_views(r@) =~= info_views(rb).push((s@, counts@[k as int])));
            assert(count_for(d, s@) == d[k as int].1);
        }
        j += 1;
    }
    proof {
        let want = sorted_names(names_of(d));
        assert(want.take(sorted.len() as int) =~= want);
    }
    r
}

// ─────────────────────────────── campaign files ────────────────────────────

/// Backslashes written as slashes.
pub open spec fn slashed(s: Seq<char>) -> Seq<char> {
    s.map_values(|c: char| if c == '\\' { '/' } else { c })
}

fn slashed_text(s: &str) -> (r: String)
    ensures
        r@ == slashed(s@),
{
    let v = to_chars(s);
    let mut out: Vec<char> = Vec::new();
    let mut i: usize = 0;
    while i < v.len()
        invariant
            i <= v.len(),
            v@ == s@,
            out@ == slashed(v@.take(i as int)),
        decreases v.len() - i,
    {
        let c = v[i];
        out.push(if c == '\\' { '/' } else { c });
        assert(slashed(v@.take(i + 1)) =~= slashed(v@.take(i as int)).push(if c == '\\' { '/' } else { c }));
        i += 1;
    }
    assert(v@.take(v.len() as int) =~= v@);
    string_of(&out)
}

/// A hidden entry: its name starts with `.`.
pub open spec fn hidden(name: Seq<char>) -> bool {
    name.len() > 0 && name[0] == '.'
}

/// Whether the file listing enters a directory found `depth` levels below
/// the campaign root: not a hidden one, and only two levels deep.
pub fn descend_into(name: &str, depth: usize) -> (r: bool)
    ensures
        r == (!hidden(name@) && depth < 2),
{
    let v = to_chars(name);
    !(v.len() > 0 && v[0] == '.') && depth < 2
}

/// A file of a campaign listing, found in the directory `rel_dir` (relative
/// to the campaign root, empty for the root) under `name`: none for a
/// hidden file; its path and directory with slashes; no directory at the
/// root.
pub fn campaign_file_entry(rel_dir: &str, name: &str, size_bytes: u64) -> (r: Option<CampaignFile>)
    ensures
        match r {
            None => hidden(name@),
            Some(f) => !hidden(name@)
                && f.filename@ == name@
                && f.path@ == slashed(if rel_dir@.len() == 0 { name@ } else { rel_dir@ + "/"@ + name@ })
                && f.size_bytes == size_bytes
                && match f.subdir {
                    Some(d) => rel_dir@.len() > 0 && d@ == slashed(rel_dir@),
                    None => rel_dir@.len() == 0,
                },
        },
{
    let nv = to_chars(name);
    if nv.len() > 0 && nv[0] == '.' {
        return None;
    }
    let rv = to_chars(rel_dir);
    let rel = if rv.len() == 0 {
        owned(name)
    } else {
        let mut p = owned(rel_dir);
        push_str(&mut p, "/");
        push_str(&mut p, name);
        p
    };
    let subdir = if rv.len() == 0 { None } else { Some(slashed_text(rel_dir)) };
    Some(CampaignFile { filename: owned(name), path: slashed_text(rel.as_str()), subdir, size_bytes })
}

pub open spec fn file_paths(v: Seq<CampaignFile>) -> Seq<Seq<char>> {
    v.map_values(|f: CampaignFile| f.path@)
}

/// The order a campaign's files are listed in: by path.
pub fn listing_by_path(files: &Vec<CampaignFile>) -> (r: Vec<usize>)
    ensures
        r.len() == files.len(),
        forall|j: int| 0 <= j < r.len() ==> #[trigger] r@[j] < files.len(),
        forall|k: usize| k < files.len() ==> #[trigger] r@.contains(k),
        forall|j: int, k: int|
            0 <= j < k < r.len() ==> key_before(file_paths(files@), #[trigger] r@[j] as int, #[trigger] r@[k] as int),
{
    let mut paths: Vec<String> = Vec::new();
    let mut i: usize = 0;
    while i < files.len()
        invariant
            i <= files.len(),
            views(paths@) == file_paths(files@).take(i as int),
        decreases files.len() - i,
    {
        let p = copy_string(&files[i].path);
        proof {
            lemma_views_push(paths@, p);
        }
        paths.push(p);
        assert(views(paths@) =~= file_paths(files@).take(i + 1));
        i += 1;
    }
    assert(file_paths(files@).take(files.len() as int) =~= file_paths(files@));
    order_by_key(&paths)
}

} // verus!
