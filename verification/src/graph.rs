//! The knowledge graph's markdown store: front-matter metadata of node and
//! edge files, and the neighbourhood of a node within a number of hops.
use vstd::prelude::*;

use crate::text::{
    contains, copy_string, deep, first_index, join, lemma_first_index,
    lemma_first_index_push,
    lemma_first_index_update_hit, lemma_first_index_update_miss, lemma_views_push, lines,
    lines_chars, occurs_at, owned, push_chars, push_str, starts_with, str_eq, string_of,
    strip_prefix_chars, sub_chars, to_chars, trim, trim_chars, views,
};

verus! {

// ───────────────────────────── substring search ────────────────────────────

/// The first position where `p` occurs in `s` (`str::find`).
#[verifier::opaque]
pub open spec fn find_str(s: Seq<char>, p: Seq<char>) -> Option<int> {
    if contains(s, p) {
        Some(choose|i: int| occurs_at(s, p, i) && forall|j: int| 0 <= j < i ==> !occurs_at(s, p, j))
    } else {
        None
    }
}

proof fn lemma_find_str_at(s: Seq<char>, p: Seq<char>, i: int)
    requires
        occurs_at(s, p, i),
        forall|j: int| 0 <= j < i ==> !occurs_at(s, p, j),
    ensures
        find_str(s, p) == Some(i),
{
    reveal(find_str);
    assert(contains(s, p));
    let w = choose|w: int| occurs_at(s, p, w) && forall|j: int| 0 <= j < w ==> !occurs_at(s, p, j);
    assert(occurs_at(s, p, w) && forall|j: int| 0 <= j < w ==> !occurs_at(s, p, j));
    if w < i {
        assert(!occurs_at(s, p, w));
    } else if w > i {
        assert(!occurs_at(s, p, i));
    }
}

/// The first position of `p` in `v`.
pub fn find_chars(v: &Vec<char>, p: &Vec<char>) -> (r: Option<usize>)
    ensures
        match r {
            Some(i) => find_str(v@, p@) == Some(i as int) && occurs_at(v@, p@, i as int),
            None => find_str(v@, p@) is None,
        },
{
    let mut i: usize = 0;
    while i < v.len()
        invariant
            i <= v.len(),
            forall|j: int| 0 <= j < i ==> !occurs_at(v@, p@, j),
        decreases v.len() - i,
    {
        if crate::text::occurs_at_chars(v, p, i) {
            proof {
                lemma_find_str_at(v@, p@, i as int);
            }
            return Some(i);
        }
        i += 1;
    }
    if crate::text::occurs_at_chars(v, p, i) {
        proof {
            lemma_find_str_at(v@, p@, i as int);
        }
        return Some(i);
    }
    proof {
        reveal(find_str);
        if contains(v@, p@) {
            let j = choose|j: int| occurs_at(v@, p@, j);
            assert(j <= v.len());
            assert(!occurs_at(v@, p@, j));
        }
    }
    None
}

// ──────────────────────────────── front matter ─────────────────────────────

/// Metadata as ordered key/value pairs, each key once.
pub open spec fn pair_views(v: Seq<(String, String)>) -> Seq<(Seq<char>, Seq<char>)> {
    v.map_values(|p: (String, String)| (p.0@, p.1@))
}

pub open spec fn key_is(k: Seq<char>) -> spec_fn((Seq<char>, Seq<char>)) -> bool {
    |p: (Seq<char>, Seq<char>)| p.0 == k
}

/// The value stored under a key.
pub open spec fn meta_get(m: Seq<(Seq<char>, Seq<char>)>, k: Seq<char>) -> Option<Seq<char>> {
    match first_index(m, key_is(k)) {
        Some(i) => Some(m[i].1),
        None => None,
    }
}

/// A key set to a value (`HashMap::insert`): its entry replaced in place,
/// or a new entry appended.
pub open spec fn meta_insert(m: Seq<(Seq<char>, Seq<char>)>, k: Seq<char>, v: Seq<char>) -> Seq<(Seq<char>, Seq<char>)> {
    match first_index(m, key_is(k)) {
        Some(i) => m.update(i, (k, v)),
        None => m.push((k, v)),
    }
}

pub open spec fn unique_keys(m: Seq<(Seq<char>, Seq<char>)>) -> bool {
    forall|i: int, j: int| 0 <= i < j < m.len() ==> #[trigger] m[i].0 != #[trigger] m[j].0
}

/// The metadata of the front-matter lines: each `key: value` line (split at
/// the first `": "`, both sides trimmed) sets its key; other lines are skipped.
pub open spec fn front_meta(ls: Seq<Seq<char>>) -> Seq<(Seq<char>, Seq<char>)>
    decreases ls.len(),
{
    if ls.len() == 0 {
        Seq::empty()
    } else {
        let m = front_meta(ls.drop_last());
        let l = ls.last();
        match find_str(l, ": "@) {
            Some(i) => meta_insert(m, trim(l.take(i)), trim(l.skip(i + 2))),
            None => m,
        }
    }
}

/// Leading newlines removed.
pub open spec fn trim_leading_newlines(s: Seq<char>) -> Seq<char>
    decreases s.len(),
{
    if s.len() > 0 && s[0] == '\n' {
        trim_leading_newlines(s.drop_first())
    } else {
        s
    }
}

/// `---\nkey: value\n---\nrest` read as metadata and body; a text without
/// that frame is all body.
pub open spec fn frontmatter(text: Seq<char>) -> (Seq<(Seq<char>, Seq<char>)>, Seq<char>) {
    if !starts_with(text, "---\n"@) {
        (Seq::empty(), text)
    } else {
        let rest = text.skip(4);
        match find_str(rest, "\n---\n"@) {
            None => (Seq::empty(), text),
            Some(e) => (front_meta(lines(rest.take(e))), trim_leading_newlines(rest.skip(e + 5))),
        }
    }
}

pub(crate) proof fn lemma_meta_insert(m: Seq<(Seq<char>, Seq<char>)>, k: Seq<char>, v: Seq<char>)
    requires
        unique_keys(m),
    ensures
        unique_keys(meta_insert(m, k, v)),
        meta_get(meta_insert(m, k, v), k) == Some(v),
        forall|o: Seq<char>| o != k ==> #[trigger] meta_get(meta_insert(m, k, v), o) == meta_get(m, o),
{
    lemma_first_index(m, key_is(k));
    match first_index(m, key_is(k)) {
        Some(i) => {
            let t = m.update(i, (k, v));
            lemma_first_index_update_hit(m, key_is(k), i, (k, v));
            assert forall|a: int, b: int| 0 <= a < b < t.len() implies #[trigger] t[a].0 != #[trigger] t[b].0 by {
                assert(m[a].0 != m[b].0);
            }
            assert forall|o: Seq<char>| o != k implies #[trigger] meta_get(t, o) == meta_get(m, o) by {
                lemma_first_index_update_miss(m, key_is(o), i, (k, v));
                lemma_first_index(m, key_is(o));
            }
        },
        None => {
            let t = m.push((k, v));
            lemma_first_index_push(m, key_is(k), (k, v));
            assert forall|a: int, b: int| 0 <= a < b < t.len() implies #[trigger] t[a].0 != #[trigger] t[b].0 by {
                if b == m.len() {
                    assert(!key_is(k)(m[a]));
                } else {
                    assert(m[a].0 != m[b].0);
                }
            }
            assert forall|o: Seq<char>| o != k implies #[trigger] meta_get(t, o) == meta_get(m, o) by {
                lemma_first_index_push(m, key_is(o), (k, v));
                lemma_first_index(m, key_is(o));
            }
        },
    }
}

proof fn lemma_front_meta_unique(ls: Seq<Seq<char>>)
    ensures
        unique_keys(front_meta(ls)),
    decreases ls.len(),
{
    if ls.len() > 0 {
        lemma_front_meta_unique(ls.drop_last());
        let l = ls.last();
        match find_str(l, ": "@) {
            Some(i) => lemma_meta_insert(front_meta(ls.drop_last()), trim(l.take(i)), trim(l.skip(i + 2))),
            None => {},
        }
    }
}

pub(crate) fn meta_position(m: &Vec<(String, String)>, k: &Vec<char>) -> (r: Option<usize>)
    ensures
        match r {
            Some(i) => first_index(pair_views(m@), key_is(k@)) == Some(i as int) && i < m.len(),
            None => first_index(pair_views(m@), key_is(k@)) is None,
        },
{
    let ghost s = pair_views(m@);
    let mut i: usize = 0;
    assert(s.take(0) =~= Seq::<(Seq<char>, Seq<char>)>::empty());
    while i < m.len()
        invariant
            i <= m.len(),
            s == pair_views(m@),
            first_index(s.take(i as int), key_is(k@)) is None,
        decreases m.len() - i,
    {
        proof {
            crate::text::lemma_first_index_step(s, key_is(k@), i as int);
        }
        let kv = to_chars(m[i].0.as_str());
        if crate::text::chars_eq(&kv, k) {
            return Some(i);
        }
        i += 1;
    }
    proof {
        crate::text::lemma_first_index_all(s, key_is(k@));
    }
    None
}

pub(crate) fn meta_set(m: &mut Vec<(String, String)>, k: Vec<char>, v: Vec<char>)
    ensures
        pair_views(final(m)@) == meta_insert(pair_views(old(m)@), k@, v@),
{
    let ghost before = pair_views(m@);
    match meta_position(m, &k) {
        Some(i) => {
            m.set(i, (string_of(&k), string_of(&v)));
            assert(pair_views(m@) =~= before.update(i as int, (k@, v@)));
        },
        None => {
            m.push((string_of(&k), string_of(&v)));
            assert(pair_views(m@) =~= before.push((k@, v@)));
        },
    }
}

fn meta_of_lines(ls: &Vec<Vec<char>>) -> (r: Vec<(String, String)>)
    ensures
        pair_views(r@) == front_meta(deep(ls@)),
{
    let ghost all = deep(ls@);
    let mut meta: Vec<(String, String)> = Vec::new();
    assert(pair_views(meta@) =~= Seq::<(Seq<char>, Seq<char>)>::empty());
    let sep = to_chars(": ");
    proof {
        reveal_strlit(": ");
    }
    let mut i: usize = 0;
    assert(all.take(0) =~= Seq::<Seq<char>>::empty());
    while i < ls.len()
        invariant
            i <= ls.len(),
            all == deep(ls@),
            sep@ == ": "@,
            sep@.len() == 2,
            pair_views(meta@) == front_meta(all.take(i as int)),
        decreases ls.len() - i,
    {
        assert(all.take(i + 1).drop_last() =~= all.take(i as int));
        assert(all.take(i + 1).last() == ls@[i as int]@);
        let l = &ls[i];
        match find_chars(l, &sep) {
            Some(j) => {
                assert(occurs_at(l@, sep@, j as int));
                assert(j + 2 <= l.len());
                let key = trim_chars(&sub_chars(l, 0, j));
                let val = trim_chars(&sub_chars(l, j + 2, l.len()));
                assert(l@.subrange(0, j as int) =~= l@.take(j as int));
                assert(l@.subrange(j + 2, l.len() as int) =~= l@.skip(j + 2));
                meta_set(&mut meta, key, val);
            },
            None => {},
        }
        i += 1;
    }
    assert(all.take(ls.len() as int) =~= all);
    meta
}

fn skip_leading_newlines(v: &Vec<char>, start: usize) -> (r: Vec<char>)
    requires
        start <= v.len(),
    ensures
        r@ == trim_leading_newlines(v@.skip(start as int)),
{
    let mut k: usize = start;
    while k < v.len() && v[k] == '\n'
        invariant
            start <= k <= v.len(),
            trim_leading_newlines(v@.skip(start as int)) == trim_leading_newlines(v@.skip(k as int)),
        decreases v.len() - k,
    {
        assert(v@.skip(k as int).drop_first() =~= v@.skip(k + 1));
        k += 1;
    }
    let body = sub_chars(v, k, v.len());
    assert(body@ =~= v@.skip(k as int));
    proof {
        if k < v.len() {
            assert(v@.skip(k as int)[0] == v@[k as int]);
        }
    }
    body
}

/// Reads the front matter of a graph file into its metadata (in the order
/// the keys first appear, each key once) and its body.
pub fn parse_frontmatter(text: &str) -> (r: (Vec<(String, String)>, String))
    ensures
        (pair_views(r.0@), r.1@) == frontmatter(text@),
        unique_keys(pair_views(r.0@)),
{
    let empty: Vec<(String, String)> = Vec::new();
    assert(pair_views(empty@) =~= Seq::<(Seq<char>, Seq<char>)>::empty());
    let v = to_chars(text);
    let rest = match strip_prefix_chars(&v, "---\n") {
        Some(rest) => rest,
        None => return (empty, owned(text)),
    };
    proof {
        reveal_strlit("---\n");
        reveal_strlit("\n---\n");
    }
    let marker = to_chars("\n---\n");
    let e = match find_chars(&rest, &marker) {
        Some(e) => e,
        None => return (empty, owned(text)),
    };
    assert(marker@.len() == 5);
    assert(occurs_at(rest@, marker@, e as int));
    let front = sub_chars(&rest, 0, e);
    assert(front@ =~= rest@.take(e as int));
    let ls = lines_chars(&front);
    let meta = meta_of_lines(&ls);
    proof {
        lemma_front_meta_unique(deep(ls@));
    }
    let body = skip_leading_newlines(&rest, e + 5);
    (meta, string_of(&body))
}

/// The keys written first, in this order.
pub open spec fn key_order() -> Seq<Seq<char>> {
    seq!["id"@, "type"@, "name"@, "created"@, "from"@, "to"@, "relationship"@]
}

pub open spec fn meta_line(k: Seq<char>, v: Seq<char>) -> Seq<char> {
    k + ": "@ + v + "\n"@
}

/// The lines of the ordered keys that are present.
pub open spec fn ordered_lines(m: Seq<(Seq<char>, Seq<char>)>, keys: Seq<Seq<char>>) -> Seq<char>
    decreases keys.len(),
{
    if keys.len() == 0 {
        Seq::empty()
    } else {
        let prev = ordered_lines(m, keys.drop_last());
        match meta_get(m, keys.last()) {
            Some(v) => prev + meta_line(keys.last(), v),
            None => prev,
        }
    }
}

/// The lines of the other keys, in metadata order.
pub open spec fn other_lines(m: Seq<(Seq<char>, Seq<char>)>) -> Seq<char>
    decreases m.len(),
{
    if m.len() == 0 {
        Seq::empty()
    } else {
        let prev = other_lines(m.drop_last());
        if key_order().contains(m.last().0) { prev } else { prev + meta_line(m.last().0, m.last().1) }
    }
}

/// A graph file: `---`, the ordered keys' lines, the other keys' lines,
/// `---`, then a blank line and the trimmed body when it is not blank.
pub open spec fn formatted(m: Seq<(Seq<char>, Seq<char>)>, body: Seq<char>) -> Seq<char> {
    let head = "---\n"@ + ordered_lines(m, key_order()) + other_lines(m) + "---\n"@;
    if trim(body).len() > 0 {
        head + "\n"@ + trim(body) + "\n"@
    } else {
        head
    }
}

fn key_order_vec() -> (r: Vec<&'static str>)
    ensures
        r@.map_values(|s: &str| s@) == key_order(),
{
    let r = vec!["id", "type", "name", "created", "from", "to", "relationship"];
    assert(r@.map_values(|s: &str| s@) =~= key_order());
    r
}

fn is_ordered_key(k: &String) -> (r: bool)
    ensures
        r == key_order().contains(k@),
{
    let keys = key_order_vec();
    let ghost kv = keys@.map_values(|s: &str| s@);
    let mut i: usize = 0;
    while i < keys.len()
        invariant
            i <= keys.len(),
            kv == keys@.map_values(|s: &str| s@),
            kv == key_order(),
            forall|j: int| 0 <= j < i ==> kv[j] != k@,
        decreases keys.len() - i,
    {
        if str_eq(keys[i], k.as_str()) {
            assert(kv[i as int] == k@);
            return true;
        }
        i += 1;
    }
    false
}

/// Writes metadata and body in the graph file format (see [`formatted`]).
pub fn format_frontmatter(meta: &Vec<(String, String)>, body: &str) -> (r: String)
    requires
        unique_keys(pair_views(meta@)),
    ensures
        r@ == formatted(pair_views(meta@), body@),
{
    let ghost m = pair_views(meta@);
    let mut r = owned("---\n");
    let keys = key_order_vec();
    let ghost kv = keys@.map_values(|s: &str| s@);
    let mut i: usize = 0;
    assert(kv.take(0) =~= Seq::<Seq<char>>::empty());
    while i < keys.len()
        invariant
            i <= keys.len(),
            m == pair_views(meta@),
            kv == keys@.map_values(|s: &str| s@),
            r@ == "---\n"@ + ordered_lines(m, kv.take(i as int)),
        decreases keys.len() - i,
    {
        assert(kv.take(i + 1).drop_last() =~= kv.take(i as int));
        assert(kv.take(i + 1).last() == keys@[i as int]@);
        let kc = to_chars(keys[i]);
        match meta_position(meta, &kc) {
            Some(j) => {
                push_str(&mut r, keys[i]);
                push_str(&mut r, ": ");
                push_str(&mut r, meta[j].1.as_str());
                push_str(&mut r, "\n");
                assert(m[j as int].1 == meta@[j as int].1@);
            },
            None => {},
        }
        i += 1;
    }
    assert(kv.take(keys.len() as int) =~= kv);
    let mut j: usize = 0;
    assert(m.take(0) =~= Seq::<(Seq<char>, Seq<char>)>::empty());
    while j < meta.len()
        invariant
            j <= meta.len(),
            m == pair_views(meta@),
            kv == key_order(),
            r@ == "---\n"@ + ordered_lines(m, key_order()) + other_lines(m.take(j as int)),
        decreases meta.len() - j,
    {
        assert(m.take(j + 1).drop_last() =~= m.take(j as int));
        assert(m.take(j + 1).last() == (meta@[j as int].0@, meta@[j as int].1@));
        if !is_ordered_key(&meta[j].0) {
            push_str(&mut r, meta[j].0.as_str());
            push_str(&mut r, ": ");
            push_str(&mut r, meta[j].1.as_str());
            push_str(&mut r, "\n");
        }
        j += 1;
    }
    assert(m.take(meta.len() as int) =~= m);
    push_str(&mut r, "---\n");
    let bv = to_chars(body);
    let t = trim_chars(&bv);
    if t.len() > 0 {
        push_str(&mut r, "\n");
        push_chars(&mut r, &t);
        push_str(&mut r, "\n");
    }
    r
}

// ──────────────────────────────── neighbourhood ────────────────────────────

/// An edge `(from, to)` links `a` and `b`, either way round.
pub open spec fn linked(e: (Seq<char>, Seq<char>), a: Seq<char>, b: Seq<char>) -> bool {
    (e.0 == a && e.1 == b) || (e.1 == a && e.0 == b)
}

/// Some edge links `a` and `b` (edges are followed both ways).
pub open spec fn adjacent(edges: Seq<(Seq<char>, Seq<char>)>, a: Seq<char>, b: Seq<char>) -> bool {
    exists|i: int| 0 <= i < edges.len() && #[trigger] linked(edges[i], a, b)
}

/// The nodes adjacent to some node of `w`.
pub open spec fn neighbours(edges: Seq<(Seq<char>, Seq<char>)>, w: Set<Seq<char>>) -> Set<Seq<char>> {
    Set::new(|n: Seq<char>| exists|m: Seq<char>| w.contains(m) && #[trigger] adjacent(edges, m, n))
}

/// The nodes within `k` hops of `start`.
pub open spec fn within(edges: Seq<(Seq<char>, Seq<char>)>, start: Seq<char>, k: nat) -> Set<Seq<char>>
    decreases k,
{
    if k == 0 {
        set![start]
    } else {
        let w = within(edges, start, (k - 1) as nat);
        w.union(neighbours(edges, w))
    }
}

/// `n` is exactly `k` hops from `start`: within `k` hops and not within fewer.
pub open spec fn at_distance(edges: Seq<(Seq<char>, Seq<char>)>, start: Seq<char>, n: Seq<char>, k: nat) -> bool {
    within(edges, start, k).contains(n) && (k == 0 || !within(edges, start, (k - 1) as nat).contains(n))
}

pub open spec fn edge_views(v: Seq<(String, String)>) -> Seq<(Seq<char>, Seq<char>)> {
    v.map_values(|e: (String, String)| (e.0@, e.1@))
}

proof fn lemma_within_mono(edges: Seq<(Seq<char>, Seq<char>)>, start: Seq<char>, a: nat, b: nat)
    requires
        a <= b,
    ensures
        within(edges, start, a).subset_of(within(edges, start, b)),
    decreases b,
{
    if a < b {
        lemma_within_mono(edges, start, a, (b - 1) as nat);
    }
}

proof fn lemma_within_stable(edges: Seq<(Seq<char>, Seq<char>)>, start: Seq<char>, d: nat, k: nat)
    requires
        within(edges, start, d + 1) == within(edges, start, d),
        d <= k,
    ensures
        within(edges, start, k) == within(edges, start, d),
    decreases k,
{
    if k > d {
        lemma_within_stable(edges, start, d, (k - 1) as nat);
    }
}

/// The next ring: what is one hop from the last ring and not yet reached.
proof fn lemma_next_ring(edges: Seq<(Seq<char>, Seq<char>)>, start: Seq<char>, d: nat, ring: Set<Seq<char>>)
    requires
        d == 0 ==> ring == set![start],
        d > 0 ==> ring == within(edges, start, d).difference(within(edges, start, (d - 1) as nat)),
    ensures
        within(edges, start, d + 1) == within(edges, start, d).union(neighbours(edges, ring)),
{
    let w = within(edges, start, d);
    let w1 = within(edges, start, d + 1);
    assert(w1 == w.union(neighbours(edges, w)));
    if d > 0 {
        let wp = within(edges, start, (d - 1) as nat);
        assert(w == wp.union(neighbours(edges, wp)));
        assert forall|n: Seq<char>| #[trigger] w1.contains(n) implies w.union(neighbours(edges, ring)).contains(n) by {
            if !w.contains(n) {
                assert(neighbours(edges, w).contains(n));
                let m = choose|m: Seq<char>| w.contains(m) && #[trigger] adjacent(edges, m, n);
                if wp.contains(m) {
                    assert(neighbours(edges, wp).contains(n));
                } else {
                    assert(ring.contains(m));
                    assert(neighbours(edges, ring).contains(n));
                }
            }
        }
        assert forall|n: Seq<char>| #[trigger] w.union(neighbours(edges, ring)).contains(n) implies w1.contains(n) by {
            if neighbours(edges, ring).contains(n) {
                let m = choose|m: Seq<char>| ring.contains(m) && #[trigger] adjacent(edges, m, n);
                assert(w.contains(m));
                assert(neighbours(edges, w).contains(n));
            }
        }
        assert(w1 =~= w.union(neighbours(edges, ring)));
    } else {
        assert(w == set![start]);
        assert(w1 =~= w.union(neighbours(edges, ring)));
    }
}

pub open spec fn listed(r: Seq<String>, n: Seq<char>) -> bool {
    exists|k: int| 0 <= k < r.len() && #[trigger] r[k]@ == n
}

pub open spec fn linked_before(e: Seq<(Seq<char>, Seq<char>)>, f: Seq<char>, i: int, n: Seq<char>) -> bool {
    exists|j: int| 0 <= j < i && #[trigger] linked(e[j], f, n)
}

/// The nodes one edge away from `f`, each as often as an edge links them.
fn adjacent_to(edges: &Vec<(String, String)>, f: &String) -> (r: Vec<String>)
    ensures
        forall|n: Seq<char>| #[trigger] listed(r@, n) <==> adjacent(edge_views(edges@), f@, n),
{
    let ghost e = edge_views(edges@);
    let mut r: Vec<String> = Vec::new();
    let mut i: usize = 0;
    while i < edges.len()
        invariant
            i <= edges.len(),
            e == edge_views(edges@),
            forall|n: Seq<char>| #[trigger] listed(r@, n) <==> linked_before(e, f@, i as int, n),
        decreases edges.len() - i,
    {
        let ghost before = r@;
        let (a, b) = &edges[i];
        assert(e[i as int] == (a@, b@));
        if str_eq(a.as_str(), f.as_str()) {
            r.push(copy_string(b));
        } else if str_eq(b.as_str(), f.as_str()) {
            r.push(copy_string(a));
        }
        assert forall|n: Seq<char>| #[trigger] listed(r@, n) <==> linked_before(e, f@, i + 1, n) by {
            if listed(r@, n) {
                let k = choose|k: int| 0 <= k < r.len() && #[trigger] r@[k]@ == n;
                if k < before.len() {
                    assert(before[k]@ == n);
                    assert(listed(before, n));
                    let j = choose|j: int| 0 <= j < i && #[trigger] linked(e[j], f@, n);
                    assert(linked(e[j], f@, n));
                } else {
                    assert(linked(e[i as int], f@, n));
                }
            }
            if linked_before(e, f@, i + 1, n) {
                let j = choose|j: int| 0 <= j < i + 1 && #[trigger] linked(e[j], f@, n);
                if j < i {
                    assert(linked_before(e, f@, i as int, n));
                    assert(listed(before, n));
                    let k = choose|k: int| 0 <= k < before.len() && #[trigger] before[k]@ == n;
                    assert(r@[k]@ == n);
                } else {
                    let k = r.len() - 1;
                    assert(r@[k]@ == n);
                }
            }
        }
        i += 1;
    }
    proof {
        assert forall|n: Seq<char>| #[trigger] listed(r@, n) <==> adjacent(e, f@, n) by {
            if linked_before(e, f@, edges.len() as int, n) {
                let j = choose|j: int| 0 <= j < edges.len() && #[trigger] linked(e[j], f@, n);
                assert(linked(e[j], f@, n));
            }
            if adjacent(e, f@, n) {
                let j = choose|j: int| 0 <= j < e.len() && #[trigger] linked(e[j], f@, n);
                assert(linked(e[j], f@, n));
                assert(linked_before(e, f@, edges.len() as int, n));
            }
        }
    }
    r
}

/// Whether `x` is among the visited nodes.
fn visited_has(visited: &Vec<(String, usize)>, x: &String) -> (r: bool)
    ensures
        r == exists|i: int| 0 <= i < visited.len() && #[trigger] visited@[i].0@ == x@,
{
    let mut i: usize = 0;
    while i < visited.len()
        invariant
            i <= visited.len(),
            forall|k: int| 0 <= k < i ==> #[trigger] visited@[k].0@ != x@,
        decreases visited.len() - i,
    {
        if str_eq(visited[i].0.as_str(), x.as_str()) {
            return true;
        }
        i += 1;
    }
    false
}

/// `n` is among the visited nodes.
pub open spec fn is_visited(v: Seq<(String, usize)>, n: Seq<char>) -> bool {
    exists|i: int| 0 <= i < v.len() && #[trigger] v[i].0@ == n
}

/// `n` is among the first `k` names.
pub open spec fn listed_upto(r: Seq<String>, k: int, n: Seq<char>) -> bool {
    exists|i: int| 0 <= i < k && #[trigger] r[i]@ == n
}

/// `n` is adjacent to one of the first `k` nodes of the ring.
pub open spec fn reached_by(e: Seq<(Seq<char>, Seq<char>)>, ring: Seq<String>, k: int, n: Seq<char>) -> bool {
    exists|j: int| 0 <= j < k && #[trigger] adjacent(e, ring[j]@, n)
}

/// Each visited node once, at its distance.
pub open spec fn visit_ok(e: Seq<(Seq<char>, Seq<char>)>, start: Seq<char>, v: Seq<(String, usize)>) -> bool {
    &&& forall|i: int, j: int| 0 <= i < j < v.len() ==> #[trigger] v[i].0@ != #[trigger] v[j].0@
    &&& forall|i: int| 0 <= i < v.len() ==> #[trigger] at_distance(e, start, v[i].0@, v[i].1 as nat)
    &&& v.len() > 0 && v[0].0@ == start
}

proof fn lemma_push_visited(v: Seq<(String, usize)>, x: (String, usize), n: Seq<char>)
    ensures
        is_visited(v.push(x), n) <==> (is_visited(v, n) || x.0@ == n),
{
    let t = v.push(x);
    if is_visited(t, n) {
        let i = choose|i: int| 0 <= i < t.len() && #[trigger] t[i].0@ == n;
        if i < v.len() {
            assert(v[i] == t[i]);
        }
    }
    if is_visited(v, n) {
        let i = choose|i: int| 0 <= i < v.len() && #[trigger] v[i].0@ == n;
        assert(t[i] == v[i]);
    }
    if x.0@ == n {
        assert(t[v.len() as int] == x);
    }
}

proof fn lemma_push_listed(r: Seq<String>, x: String, n: Seq<char>)
    ensures
        listed_upto(r.push(x), r.len() + 1int, n) <==> (listed_upto(r, r.len() as int, n) || x@ == n),
{
    let t = r.push(x);
    if listed_upto(t, r.len() + 1int, n) {
        let i = choose|i: int| 0 <= i < r.len() + 1int && #[trigger] t[i]@ == n;
        if i < r.len() {
            assert(r[i] == t[i]);
        }
    }
    if listed_upto(r, r.len() as int, n) {
        let i = choose|i: int| 0 <= i < r.len() && #[trigger] r[i]@ == n;
        assert(t[i] == r[i]);
    }
    if x@ == n {
        assert(t[r.len() as int] == x);
    }
}

/// Visits the neighbours of one ring, adding those not yet visited at
/// distance `d + 1`; returns the nodes added, the next ring.
fn expand_ring(
    edges: &Vec<(String, String)>,
    ring: &Vec<String>,
    visited: &mut Vec<(String, usize)>,
    d: usize,
    Ghost(start): Ghost<Seq<char>>,
) -> (next: Vec<String>)
    requires
        d < usize::MAX,
        forall|n: Seq<char>| #[trigger] is_visited(old(visited)@, n) <==> within(edge_views(edges@), start, d as nat).contains(n),
        visit_ok(edge_views(edges@), start, old(visited)@),
        forall|i: int| 0 <= i < ring.len() ==> within(edge_views(edges@), start, d as nat).contains(#[trigger] ring@[i]@),
    ensures
        forall|n: Seq<char>| #[trigger] is_visited(final(visited)@, n) <==>
            (within(edge_views(edges@), start, d as nat).contains(n) || reached_by(edge_views(edges@), ring@, ring.len() as int, n)),
        forall|n: Seq<char>| #[trigger] listed_upto(next@, next@.len() as int, n) <==>
            (is_visited(final(visited)@, n) && !within(edge_views(edges@), start, d as nat).contains(n)),
        visit_ok(edge_views(edges@), start, final(visited)@),
{
    let ghost e = edge_views(edges@);
    let ghost w = within(e, start, d as nat);
    let mut next: Vec<String> = Vec::new();
    let mut fi: usize = 0;
    while fi < ring.len()
        invariant
            fi <= ring.len(),
            d < usize::MAX,
            e == edge_views(edges@),
            w == within(e, start, d as nat),
            forall|i: int| 0 <= i < ring.len() ==> w.contains(#[trigger] ring@[i]@),
            forall|n: Seq<char>| #[trigger] is_visited(visited@, n) <==> (w.contains(n) || reached_by(e, ring@, fi as int, n)),
            forall|n: Seq<char>| #[trigger] listed_upto(next@, next@.len() as int, n) <==> (is_visited(visited@, n) && !w.contains(n)),
            visit_ok(e, start, visited@),
        decreases ring.len() - fi,
    {
        let f = &ring[fi];
        assert(w.contains(f@));
        let nbrs = adjacent_to(edges, f);
        let ghost base = visited@;
        let mut ni: usize = 0;
        while ni < nbrs.len()
            invariant
                ni <= nbrs.len(),
                d < usize::MAX,
                e == edge_views(edges@),
                w == within(e, start, d as nat),
                w.contains(f@),
                forall|n: Seq<char>| #[trigger] listed(nbrs@, n) <==> adjacent(e, f@, n),
                forall|n: Seq<char>| #[trigger] is_visited(visited@, n) <==> (is_visited(base, n) || listed_upto(nbrs@, ni as int, n)),
                forall|n: Seq<char>| w.contains(n) ==> #[trigger] is_visited(base, n),
                forall|n: Seq<char>| #[trigger] listed_upto(next@, next@.len() as int, n) <==> (is_visited(visited@, n) && !w.contains(n)),
                visit_ok(e, start, visited@),
            decreases nbrs.len() - ni,
        {
            let n = &nbrs[ni];
            let ghost before = visited@;
            let ghost next_before = next@;
            proof {
                assert(listed(nbrs@, n@));
            }
            if !visited_has(visited, n) {
                proof {
                    assert(!is_visited(before, n@));
                    assert(!w.contains(n@));
                    assert(adjacent(e, f@, n@));
                    assert(neighbours(e, w).contains(n@));
                    assert(within(e, start, (d + 1) as nat) == w.union(neighbours(e, w)));
                    assert(at_distance(e, start, n@, (d + 1) as nat));
                }
                let entry = (copy_string(n), d + 1);
                visited.push(entry);
                let nn = copy_string(n);
                next.push(nn);
                proof {
                    assert forall|i: int, j: int| 0 <= i < j < visited@.len() implies #[trigger] visited@[i].0@ != #[trigger] visited@[j].0@ by {
                        if j == before.len() {
                            assert(visited@[i] == before[i]);
                            assert(is_visited(before, before[i].0@));
                        } else {
                            assert(visited@[i] == before[i] && visited@[j] == before[j]);
                        }
                    }
                    assert forall|i: int| 0 <= i < visited@.len() implies #[trigger] at_distance(e, start, visited@[i].0@, visited@[i].1 as nat) by {
                        if i < before.len() {
                            assert(visited@[i] == before[i]);
                        }
                    }
                    assert(visited@[0] == before[0]);
                    assert forall|x: Seq<char>| #[trigger] is_visited(visited@, x) <==> (is_visited(before, x) || x == n@) by {
                        lemma_push_visited(before, entry, x);
                    }
                    assert forall|x: Seq<char>| #[trigger] listed_upto(next@, next@.len() as int, x) <==> (is_visited(visited@, x) && !w.contains(x)) by {
                        lemma_push_listed(next_before, nn, x);
                        lemma_push_visited(before, entry, x);
                        assert(listed_upto(next_before, next_before.len() as int, x) <==> (is_visited(before, x) && !w.contains(x)));
                    }
                }
            }
            proof {
                assert forall|x: Seq<char>| #[trigger] is_visited(visited@, x) <==> (is_visited(base, x) || listed_upto(nbrs@, ni + 1, x)) by {
                    if listed_upto(nbrs@, ni + 1, x) && !listed_upto(nbrs@, ni as int, x) {
                        let k = choose|k: int| 0 <= k < ni + 1 && #[trigger] nbrs@[k]@ == x;
                        if k < ni {
                            assert(listed_upto(nbrs@, ni as int, x));
                        }
                        assert(x == n@);
                    }
                    if listed_upto(nbrs@, ni as int, x) {
                        let k = choose|k: int| 0 <= k < ni && #[trigger] nbrs@[k]@ == x;
                        assert(listed_upto(nbrs@, ni + 1, x));
                    }
                    if x == n@ {
                        assert(nbrs@[ni as int]@ == x);
                        assert(listed_upto(nbrs@, ni + 1, x));
                    }
                }
            }
            ni += 1;
        }
        proof {
            assert forall|x: Seq<char>| #[trigger] is_visited(visited@, x) <==> (w.contains(x) || reached_by(e, ring@, fi + 1, x)) by {
                if listed_upto(nbrs@, nbrs.len() as int, x) {
                    let k = choose|k: int| 0 <= k < nbrs.len() && #[trigger] nbrs@[k]@ == x;
                    assert(listed(nbrs@, x));
                    assert(adjacent(e, f@, x));
                    assert(ring@[fi as int]@ == f@);
                    assert(reached_by(e, ring@, fi + 1, x));
                }
                if reached_by(e, ring@, fi + 1, x) && !reached_by(e, ring@, fi as int, x) {
                    let j = choose|j: int| 0 <= j < fi + 1 && #[trigger] adjacent(e, ring@[j]@, x);
                    if j < fi {
                        assert(reached_by(e, ring@, fi as int, x));
                    }
                    assert(adjacent(e, f@, x));
                    assert(listed(nbrs@, x));
                    let k = choose|k: int| 0 <= k < nbrs.len() && #[trigger] nbrs@[k]@ == x;
                    assert(listed_upto(nbrs@, nbrs.len() as int, x));
                }
                if reached_by(e, ring@, fi as int, x) {
                    let j = choose|j: int| 0 <= j < fi && #[trigger] adjacent(e, ring@[j]@, x);
                    assert(reached_by(e, ring@, fi + 1, x));
                }
            }
        }
        fi += 1;
    }
    next
}

/// The nodes within `hops` hops of `start` and their distances, following
/// edges both ways; `start` itself is left out.
#[verifier::spinoff_prover]
pub fn neighbors_within(edges: &Vec<(String, String)>, start: &str, hops: usize) -> (r: Vec<(String, usize)>)
    ensures
        forall|i: int, j: int| 0 <= i < j < r.len() ==> #[trigger] r@[i].0@ != #[trigger] r@[j].0@,
        forall|i: int| 0 <= i < r.len() ==> r@[i].0@ != start@ && r@[i].1 <= hops
            && #[trigger] at_distance(edge_views(edges@), start@, r@[i].0@, r@[i].1 as nat),
        forall|n: Seq<char>| #[trigger] within(edge_views(edges@), start@, hops as nat).contains(n) && n != start@ ==>
            exists|i: int| 0 <= i < r.len() && r@[i].0@ == n,
{
    let ghost e = edge_views(edges@);
    let mut visited: Vec<(String, usize)> = Vec::new();
    visited.push((owned(start), 0));
    let mut ring: Vec<String> = Vec::new();
    let s0 = owned(start);
    let ghost ring0 = ring@;
    ring.push(s0);
    let mut d: usize = 0;
    proof {
        assert forall|n: Seq<char>| #[trigger] listed_upto(ring@, ring@.len() as int, n) <==> n == start@ by {
            lemma_push_listed(ring0, s0, n);
            if listed_upto(ring0, 0, n) {
                let i = choose|i: int| 0 <= i < 0 && #[trigger] ring0[i]@ == n;
            }
        }
        assert(within(e, start@, 0) == set![start@]);
        assert forall|n: Seq<char>| #[trigger] is_visited(visited@, n) <==> within(e, start@, 0).contains(n) by {
            if is_visited(visited@, n) {
                let i = choose|i: int| 0 <= i < visited@.len() && #[trigger] visited@[i].0@ == n;
            }
            if n == start@ {
                assert(visited@[0].0@ == n);
            }
        }
        assert(at_distance(e, start@, visited@[0].0@, 0));
    }
    while d < hops && ring.len() > 0
        invariant
            d <= hops,
            e == edge_views(edges@),
            forall|n: Seq<char>| #[trigger] is_visited(visited@, n) <==> within(e, start@, d as nat).contains(n),
            visit_ok(e, start@, visited@),
            forall|i: int| 0 <= i < visited@.len() ==> #[trigger] visited@[i].1 <= d,
            d == 0 ==> forall|n: Seq<char>| #[trigger] listed_upto(ring@, ring@.len() as int, n) <==> n == start@,
            d > 0 ==> forall|n: Seq<char>| #[trigger] listed_upto(ring@, ring@.len() as int, n) <==>
                (within(e, start@, d as nat).contains(n) && !within(e, start@, (d - 1) as nat).contains(n)),
            ring.len() == 0 ==> d > 0 && within(e, start@, d as nat) == within(e, start@, (d - 1) as nat),
        decreases hops - d,
    {
        let ghost w = within(e, start@, d as nat);
        let ghost ring_set = Set::new(|n: Seq<char>| listed_upto(ring@, ring@.len() as int, n));
        proof {
            assert forall|i: int| 0 <= i < ring.len() implies w.contains(#[trigger] ring@[i]@) by {
                assert(listed_upto(ring@, ring@.len() as int, ring@[i]@));
                if d > 0 {
                } else {
                    assert(ring@[i]@ == start@);
                }
            }
            if d == 0 {
                assert(ring_set =~= set![start@]);
            } else {
                assert(ring_set =~= w.difference(within(e, start@, (d - 1) as nat)));
            }
            lemma_next_ring(e, start@, d as nat, ring_set);
            lemma_within_mono(e, start@, d as nat, (d + 1) as nat);
        }
        let ghost before = visited@;
        let next = expand_ring(edges, &ring, &mut visited, d, Ghost(start@));
        proof {
            let w1 = within(e, start@, (d + 1) as nat);
            assert(w1 == w.union(neighbours(e, ring_set)));
            assert forall|n: Seq<char>| #[trigger] is_visited(visited@, n) <==> w1.contains(n) by {
                if reached_by(e, ring@, ring.len() as int, n) {
                    let j = choose|j: int| 0 <= j < ring.len() && #[trigger] adjacent(e, ring@[j]@, n);
                    assert(listed_upto(ring@, ring@.len() as int, ring@[j]@));
                    assert(ring_set.contains(ring@[j]@));
                    assert(neighbours(e, ring_set).contains(n));
                }
                if neighbours(e, ring_set).contains(n) {
                    let m = choose|m: Seq<char>| ring_set.contains(m) && #[trigger] adjacent(e, m, n);
                    let j = choose|j: int| 0 <= j < ring.len() && #[trigger] ring@[j]@ == m;
                    assert(adjacent(e, ring@[j]@, n));
                    assert(reached_by(e, ring@, ring.len() as int, n));
                }
            }
            assert forall|i: int| 0 <= i < visited@.len() implies #[trigger] visited@[i].1 <= d + 1 by {
                let v = visited@[i];
                assert(at_distance(e, start@, v.0@, v.1 as nat));
                if v.1 > d + 1 {
                    assert(is_visited(visited@, v.0@));
                    lemma_within_mono(e, start@, (d + 1) as nat, (v.1 - 1) as nat);
                }
            }
            if next.len() == 0 {
                assert(w1 =~= w) by {
                    assert forall|n: Seq<char>| w1.contains(n) implies w.contains(n) by {
                        assert(is_visited(visited@, n));
                        if !w.contains(n) {
                            assert(listed_upto(next@, next@.len() as int, n));
                        }
                    }
                    lemma_within_mono(e, start@, d as nat, (d + 1) as nat);
                }
            }
        }
        ring = next;
        d += 1;
    }
    proof {
        if d < hops {
            lemma_within_stable(e, start@, (d - 1) as nat, hops as nat);
            lemma_within_stable(e, start@, (d - 1) as nat, d as nat);
        }
    }
    let mut r: Vec<(String, usize)> = Vec::new();
    let mut i: usize = 1;
    while i < visited.len()
        invariant
            1 <= i <= visited.len(),
            visit_ok(e, start@, visited@),
            forall|k: int| 0 <= k < visited@.len() ==> #[trigger] visited@[k].1 <= hops,
            r.len() == i - 1,
            e == edge_views(edges@),
            forall|k: int| 0 <= k < r.len() ==> #[trigger] r@[k].0@ == visited@[k + 1].0@ && r@[k].1 == visited@[k + 1].1,
        decreases visited.len() - i,
    {
        let (n, k) = &visited[i];
        r.push((copy_string(n), *k));
        assert(r@[i - 1].0@ == visited@[i as int].0@);
        i += 1;
    }
    proof {
        assert(forall|k: int| 0 <= k < r.len() ==> #[trigger] r@[k].0@ == visited@[k + 1].0@ && r@[k].1 == visited@[k + 1].1);
        assert forall|a: int, b: int| 0 <= a < b < r.len() implies #[trigger] r@[a].0@ != #[trigger] r@[b].0@ by {
            assert(visited@[a + 1].0@ != visited@[b + 1].0@);
        }
        assert forall|k: int| 0 <= k < r.len() implies r@[k].0@ != start@ && r@[k].1 <= hops
            && #[trigger] at_distance(edge_views(edges@), start@, r@[k].0@, r@[k].1 as nat) by {
            assert(0 <= k < r.len());
            let rk = r@[k];
            assert(rk.0@ == visited@[k + 1].0@);
            assert(rk.1 == visited@[k + 1].1);
            assert(visited@[k + 1].1 <= hops);
            assert(visited@[0].0@ != visited@[k + 1].0@);
            assert(at_distance(e, start@, visited@[k + 1].0@, visited@[k + 1].1 as nat));
        }
        assert forall|n: Seq<char>| #[trigger] within(e, start@, hops as nat).contains(n) && n != start@ implies
            exists|k: int| 0 <= k < r.len() && r@[k].0@ == n by {
            assert(is_visited(visited@, n));
            let x = choose|x: int| 0 <= x < visited@.len() && #[trigger] visited@[x].0@ == n;
            assert(x != 0);
            assert(r@[x - 1].0@ == n);
        }
    }
    r
}

// ─────────────────────────────── node and edge files ───────────────────────

/// A node's body: its name as a heading, then the description if any.
pub open spec fn node_body(name: Seq<char>, body: Seq<char>) -> Seq<char> {
    if body.len() == 0 { "# "@ + name + "\n"@ } else { "# "@ + name + "\n\n"@ + body }
}

pub open spec fn node_meta(node_id: Seq<char>, node_type: Seq<char>, name: Seq<char>, created: Seq<char>) -> Seq<(Seq<char>, Seq<char>)> {
    seq![("id"@, node_id), ("type"@, node_type), ("name"@, name), ("created"@, created)]
}

pub open spec fn edge_meta(edge_id: Seq<char>, from: Seq<char>, to: Seq<char>, relationship: Seq<char>, created: Seq<char>) -> Seq<(Seq<char>, Seq<char>)> {
    seq![("id"@, edge_id), ("from"@, from), ("to"@, to), ("relationship"@, relationship), ("created"@, created)]
}

fn pair(k: &str, v: &str) -> (r: (String, String))
    ensures
        r.0@ == k@,
        r.1@ == v@,
{
    (owned(k), owned(v))
}

/// The file of a new graph node: its id, type, name and creation time, and
/// its body under a heading of its name.
pub fn node_document(node_id: &str, node_type: &str, name: &str, body: &str, created: &str) -> (r: String)
    ensures
        r@ == formatted(node_meta(node_id@, node_type@, name@, created@), node_body(name@, body@)),
{
    let meta = vec![pair("id", node_id), pair("type", node_type), pair("name", name), pair("created", created)];
    proof {
        reveal_strlit("id");
        reveal_strlit("type");
        reveal_strlit("name");
        reveal_strlit("created");
    }
    assert(pair_views(meta@) =~= node_meta(node_id@, node_type@, name@, created@));
    proof {
        let m = pair_views(meta@);
        assert("id"@.len() == 2 && "type"@.len() == 4 && "name"@.len() == 4 && "created"@.len() == 7);
        assert("type"@[0] != "name"@[0]);
        assert forall|i: int, j: int| 0 <= i < j < m.len() implies #[trigger] m[i].0 != #[trigger] m[j].0 by {
            if i == 1 && j == 2 {
                assert(m[i].0[0] != m[j].0[0]);
            }
        }
    }
    let mut full = owned("# ");
    push_str(&mut full, name);
    if body.is_empty() {
        push_str(&mut full, "\n");
    } else {
        push_str(&mut full, "\n\n");
        push_str(&mut full, body);
    }
    format_frontmatter(&meta, full.as_str())
}

/// The file of a new graph edge: its id, endpoints, relationship and
/// creation time, and its body.
pub fn edge_document(edge_id: &str, from: &str, to: &str, relationship: &str, created: &str, body: &str) -> (r: String)
    ensures
        r@ == formatted(edge_meta(edge_id@, from@, to@, relationship@, created@), body@),
{
    let meta = vec![pair("id", edge_id), pair("from", from), pair("to", to), pair("relationship", relationship), pair("created", created)];
    proof {
        reveal_strlit("id");
        reveal_strlit("from");
        reveal_strlit("to");
        reveal_strlit("relationship");
        reveal_strlit("created");
    }
    assert(pair_views(meta@) =~= edge_meta(edge_id@, from@, to@, relationship@, created@));
    proof {
        let m = pair_views(meta@);
        assert("id"@.len() == 2 && "from"@.len() == 4 && "to"@.len() == 2 && "relationship"@.len() == 12
            && "created"@.len() == 7);
        assert("id"@[0] != "to"@[0]);
        assert forall|i: int, j: int| 0 <= i < j < m.len() implies #[trigger] m[i].0 != #[trigger] m[j].0 by {
            if i == 0 && j == 2 {
                assert(m[i].0[0] != m[j].0[0]);
            }
        }
    }
    format_frontmatter(&meta, body)
}

/// The endpoints of an edge file's metadata, when it names both.
pub fn edge_endpoints(meta: &Vec<(String, String)>) -> (r: Option<(String, String)>)
    ensures
        match (meta_get(pair_views(meta@), "from"@), meta_get(pair_views(meta@), "to"@)) {
            (Some(f), Some(t)) => r matches Some(e) && e.0@ == f && e.1@ == t,
            _ => r is None,
        },
{
    let fk = to_chars("from");
    let tk = to_chars("to");
    match (meta_position(meta, &fk), meta_position(meta, &tk)) {
        (Some(i), Some(j)) => Some((copy_string(&meta[i].1), copy_string(&meta[j].1))),
        _ => None,
    }
}

/// `Created graph node {id} ({type}: {name})`.
pub fn node_created_text(node_id: &str, node_type: &str, name: &str) -> (r: String)
    ensures
        r@ == "Created graph node "@ + node_id@ + " ("@ + node_type@ + ": "@ + name@ + ")"@,
{
    let mut r = owned("Created graph node ");
    push_str(&mut r, node_id);
    push_str(&mut r, " (");
    push_str(&mut r, node_type);
    push_str(&mut r, ": ");
    push_str(&mut r, name);
    push_str(&mut r, ")");
    r
}

/// `Created edge {from} --[{relationship}]--> {to}`.
pub fn edge_created_text(from: &str, relationship: &str, to: &str) -> (r: String)
    ensures
        r@ == "Created edge "@ + from@ + " --["@ + relationship@ + "]--> "@ + to@,
{
    let mut r = owned("Created edge ");
    push_str(&mut r, from);
    push_str(&mut r, " --[");
    push_str(&mut r, relationship);
    push_str(&mut r, "]--> ");
    push_str(&mut r, to);
    r
}

// ─────────────────────────── reading back what was written ─────────────────

/// A key or value that survives the file format: trimmed and on one line.
pub open spec fn field_ok(s: Seq<char>) -> bool {
    trim(s) == s && !s.contains('\n')
}

/// A metadata entry that survives the file format; a key also holds no `": "`.
pub open spec fn entry_ok(p: (Seq<char>, Seq<char>)) -> bool {
    field_ok(p.0) && field_ok(p.1) && !contains(p.0, ": "@)
}

pub open spec fn line_body(p: (Seq<char>, Seq<char>)) -> Seq<char> {
    p.0 + ": "@ + p.1
}

/// The lines written for a list of entries.
pub open spec fn lines_of(ps: Seq<(Seq<char>, Seq<char>)>) -> Seq<char>
    decreases ps.len(),
{
    if ps.len() == 0 {
        Seq::empty()
    } else {
        lines_of(ps.drop_last()) + meta_line(ps.last().0, ps.last().1)
    }
}

/// The entries of the ordered keys that are present, in key order.
pub open spec fn ordered_pairs(m: Seq<(Seq<char>, Seq<char>)>, keys: Seq<Seq<char>>) -> Seq<(Seq<char>, Seq<char>)>
    decreases keys.len(),
{
    if keys.len() == 0 {
        Seq::empty()
    } else {
        let prev = ordered_pairs(m, keys.drop_last());
        match meta_get(m, keys.last()) {
            Some(v) => prev.push((keys.last(), v)),
            None => prev,
        }
    }
}

/// The entries of the other keys, in metadata order.
pub open spec fn other_pairs(m: Seq<(Seq<char>, Seq<char>)>) -> Seq<(Seq<char>, Seq<char>)>
    decreases m.len(),
{
    if m.len() == 0 {
        Seq::empty()
    } else {
        let prev = other_pairs(m.drop_last());
        if key_order().contains(m.last().0) { prev } else { prev.push(m.last()) }
    }
}

/// The entries in the order a file lists them.
pub open spec fn written_pairs(m: Seq<(Seq<char>, Seq<char>)>) -> Seq<(Seq<char>, Seq<char>)> {
    ordered_pairs(m, key_order()) + other_pairs(m)
}

/// Keys set one after the other.
pub open spec fn fold_insert(ps: Seq<(Seq<char>, Seq<char>)>) -> Seq<(Seq<char>, Seq<char>)>
    decreases ps.len(),
{
    if ps.len() == 0 {
        Seq::empty()
    } else {
        meta_insert(fold_insert(ps.drop_last()), ps.last().0, ps.last().1)
    }
}

proof fn lemma_ordered_lines(m: Seq<(Seq<char>, Seq<char>)>, keys: Seq<Seq<char>>)
    ensures
        ordered_lines(m, keys) == lines_of(ordered_pairs(m, keys)),
    decreases keys.len(),
{
    if keys.len() > 0 {
        lemma_ordered_lines(m, keys.drop_last());
        let prev = ordered_pairs(m, keys.drop_last());
        match meta_get(m, keys.last()) {
            Some(v) => {
                assert(prev.push((keys.last(), v)).drop_last() =~= prev);
            },
            None => {},
        }
    }
}

proof fn lemma_other_lines(m: Seq<(Seq<char>, Seq<char>)>)
    ensures
        other_lines(m) == lines_of(other_pairs(m)),
    decreases m.len(),
{
    if m.len() > 0 {
        lemma_other_lines(m.drop_last());
        let prev = other_pairs(m.drop_last());
        if !key_order().contains(m.last().0) {
            assert(prev.push(m.last()).drop_last() =~= prev);
        }
    }
}

proof fn lemma_lines_of_concat(a: Seq<(Seq<char>, Seq<char>)>, b: Seq<(Seq<char>, Seq<char>)>)
    ensures
        lines_of(a + b) == lines_of(a) + lines_of(b),
    decreases b.len(),
{
    if b.len() == 0 {
        assert(a + b =~= a);
    } else {
        lemma_lines_of_concat(a, b.drop_last());
        assert((a + b).drop_last() =~= a + b.drop_last());
        assert((a + b).last() == b.last());
    }
}

proof fn lemma_first_index_concat<T>(a: Seq<T>, b: Seq<T>, p: spec_fn(T) -> bool)
    ensures
        first_index(a + b, p) == match first_index(a, p) {
            Some(i) => Some(i),
            None => match first_index(b, p) {
                Some(j) => Some(a.len() + j),
                None => None,
            },
        },
    decreases b.len(),
{
    if b.len() == 0 {
        assert(a + b =~= a);
    } else {
        lemma_first_index_concat(a, b.drop_last(), p);
        assert(a + b =~= (a + b.drop_last()).push(b.last()));
        lemma_first_index_push(a + b.drop_last(), p, b.last());
        lemma_first_index_push(b.drop_last(), p, b.last());
        assert(b.drop_last().push(b.last()) =~= b);
    }
}

proof fn lemma_meta_get_concat(a: Seq<(Seq<char>, Seq<char>)>, b: Seq<(Seq<char>, Seq<char>)>, k: Seq<char>)
    ensures
        meta_get(a + b, k) == match meta_get(a, k) {
            Some(v) => Some(v),
            None => meta_get(b, k),
        },
{
    lemma_first_index_concat(a, b, key_is(k));
    lemma_first_index(a, key_is(k));
    lemma_first_index(b, key_is(k));
    match first_index(a, key_is(k)) {
        Some(i) => {
            assert((a + b)[i] == a[i]);
        },
        None => {
            match first_index(b, key_is(k)) {
                Some(j) => {
                    assert((a + b)[a.len() + j] == b[j]);
                },
                None => {},
            }
        },
    }
}

proof fn lemma_key_order_distinct()
    ensures
        forall|i: int, j: int| 0 <= i < j < key_order().len() ==> #[trigger] key_order()[i] != #[trigger] key_order()[j],
{
    reveal_strlit("id");
    reveal_strlit("type");
    reveal_strlit("name");
    reveal_strlit("created");
    reveal_strlit("from");
    reveal_strlit("to");
    reveal_strlit("relationship");
    let ko = key_order();
    assert forall|i: int, j: int| 0 <= i < j < ko.len() implies #[trigger] ko[i] != #[trigger] ko[j] by {
        if ko[i].len() == ko[j].len() {
            assert(ko[i][0] != ko[j][0]);
        }
    }
}

/// The ordered part holds exactly the present ordered keys, each once.
proof fn lemma_ordered_pairs(m: Seq<(Seq<char>, Seq<char>)>, keys: Seq<Seq<char>>)
    requires
        forall|i: int, j: int| 0 <= i < j < keys.len() ==> #[trigger] keys[i] != #[trigger] keys[j],
    ensures
        unique_keys(ordered_pairs(m, keys)),
        forall|i: int| 0 <= i < ordered_pairs(m, keys).len() ==> keys.contains(#[trigger] ordered_pairs(m, keys)[i].0),
        forall|k: Seq<char>| #[trigger] meta_get(ordered_pairs(m, keys), k) == if keys.contains(k) { meta_get(m, k) } else { None },
    decreases keys.len(),
{
    let ks = keys.drop_last();
    if keys.len() > 0 {
        lemma_ordered_pairs(m, ks);
        let prev = ordered_pairs(m, ks);
        let kl = keys.last();
        assert(!ks.contains(kl)) by {
            if ks.contains(kl) {
                let i = choose|i: int| 0 <= i < ks.len() && ks[i] == kl;
                assert(keys[i] == keys[keys.len() - 1]);
            }
        }
        assert forall|k: Seq<char>| #[trigger] keys.contains(k) <==> (ks.contains(k) || k == kl) by {
            if keys.contains(k) {
                let i = choose|i: int| 0 <= i < keys.len() && keys[i] == k;
                if i < keys.len() - 1 {
                    assert(ks[i] == k);
                }
            }
            if ks.contains(k) {
                let i = choose|i: int| 0 <= i < ks.len() && ks[i] == k;
                assert(keys[i] == k);
            }
        }
        match meta_get(m, kl) {
            Some(v) => {
                let t = prev.push((kl, v));
                assert forall|a: int, b: int| 0 <= a < b < t.len() implies #[trigger] t[a].0 != #[trigger] t[b].0 by {
                    if b == prev.len() {
                        assert(ks.contains(t[a].0));
                    } else {
                        assert(t[a] == prev[a] && t[b] == prev[b]);
                    }
                }
                assert forall|i: int| 0 <= i < t.len() implies keys.contains(#[trigger] t[i].0) by {
                    if i < prev.len() {
                        assert(t[i] == prev[i]);
                        assert(ks.contains(prev[i].0));
                    }
                }
                assert forall|k: Seq<char>| #[trigger] meta_get(t, k) == if keys.contains(k) { meta_get(m, k) } else { None } by {
                    lemma_first_index_push(prev, key_is(k), (kl, v));
                    lemma_first_index(prev, key_is(k));
                    assert(meta_get(prev, k) == if ks.contains(k) { meta_get(m, k) } else { None });
                    if k == kl {
                        assert(meta_get(prev, k) is None);
                    }
                }
            },
            None => {
                assert forall|k: Seq<char>| #[trigger] meta_get(prev, k) == if keys.contains(k) { meta_get(m, k) } else { None } by {
                    assert(meta_get(prev, k) == if ks.contains(k) { meta_get(m, k) } else { None });
                }
                assert forall|i: int| 0 <= i < prev.len() implies keys.contains(#[trigger] prev[i].0) by {
                    assert(ks.contains(prev[i].0));
                }
            },
        }
    }
}

/// The other part holds exactly the keys outside the order, as the metadata has them.
proof fn lemma_other_pairs(m: Seq<(Seq<char>, Seq<char>)>)
    requires
        unique_keys(m),
    ensures
        unique_keys(other_pairs(m)),
        forall|i: int| 0 <= i < other_pairs(m).len() ==> !key_order().contains(#[trigger] other_pairs(m)[i].0),
        forall|k: Seq<char>| #[trigger] meta_get(other_pairs(m), k) == if key_order().contains(k) { None } else { meta_get(m, k) },
        forall|i: int| 0 <= i < other_pairs(m).len() ==> exists|j: int| 0 <= j < m.len() && m[j] == #[trigger] other_pairs(m)[i],
    decreases m.len(),
{
    if m.len() > 0 {
        let md = m.drop_last();
        assert(unique_keys(md)) by {
            assert forall|a: int, b: int| 0 <= a < b < md.len() implies #[trigger] md[a].0 != #[trigger] md[b].0 by {
                assert(md[a] == m[a] && md[b] == m[b]);
            }
        }
        lemma_other_pairs(md);
        let prev = other_pairs(md);
        let x = m.last();
        assert(m =~= md.push(x));
        if key_order().contains(x.0) {
            assert forall|k: Seq<char>| #[trigger] meta_get(prev, k) == if key_order().contains(k) { None } else { meta_get(m, k) } by {
                lemma_first_index_push(md, key_is(k), x);
                lemma_first_index(md, key_is(k));
            }
            assert forall|i: int| 0 <= i < prev.len() implies exists|j: int| 0 <= j < m.len() && m[j] == #[trigger] prev[i] by {
                let j = choose|j: int| 0 <= j < md.len() && md[j] == prev[i];
                assert(m[j] == md[j]);
            }
        } else {
            let t = prev.push(x);
            assert forall|i: int| 0 <= i < t.len() implies exists|j: int| 0 <= j < m.len() && m[j] == #[trigger] t[i] by {
                if i < prev.len() {
                    assert(t[i] == prev[i]);
                    let j = choose|j: int| 0 <= j < md.len() && md[j] == prev[i];
                    assert(m[j] == md[j]);
                } else {
                    assert(m[m.len() - 1] == t[i]);
                }
            }
            assert forall|a: int, b: int| 0 <= a < b < t.len() implies #[trigger] t[a].0 != #[trigger] t[b].0 by {
                if b == prev.len() {
                    assert(t[a] == prev[a]);
                    let j = choose|j: int| 0 <= j < md.len() && md[j] == prev[a];
                    assert(m[j] == md[j]);
                    assert(m[j].0 != m[m.len() - 1].0);
                } else {
                    assert(t[a] == prev[a] && t[b] == prev[b]);
                }
            }
            assert forall|i: int| 0 <= i < t.len() implies !key_order().contains(#[trigger] t[i].0) by {
                if i < prev.len() {
                    assert(t[i] == prev[i]);
                }
            }
            assert forall|k: Seq<char>| #[trigger] meta_get(t, k) == if key_order().contains(k) { None } else { meta_get(m, k) } by {
                lemma_first_index_push(prev, key_is(k), x);
                lemma_first_index(prev, key_is(k));
                lemma_first_index_push(md, key_is(k), x);
                lemma_first_index(md, key_is(k));
                assert(meta_get(prev, k) == if key_order().contains(k) { None } else { meta_get(md, k) });
                if k == x.0 {
                    assert(meta_get(md, k) is None) by {
                        if first_index(md, key_is(k)) is Some {
                            let j = first_index(md, key_is(k))->0;
                            assert(md[j] == m[j]);
                            assert(m[j].0 != m[m.len() - 1].0);
                        }
                    }
                    assert(!key_order().contains(k));
                    assert(t[prev.len() as int] == x);
                    assert(meta_get(t, k) == Some(x.1));
                    assert(m[md.len() as int] == x);
                    assert(meta_get(m, k) == Some(x.1));
                } else {
                    assert(meta_get(t, k) == meta_get(prev, k));
                    assert(meta_get(m, k) == meta_get(md, k));
                }
            }
        }
    }
}

proof fn lemma_fold_insert_get(ps: Seq<(Seq<char>, Seq<char>)>)
    requires
        unique_keys(ps),
    ensures
        unique_keys(fold_insert(ps)),
        forall|k: Seq<char>| #[trigger] meta_get(fold_insert(ps), k) == meta_get(ps, k),
    decreases ps.len(),
{
    if ps.len() > 0 {
        let pd = ps.drop_last();
        assert(unique_keys(pd)) by {
            assert forall|a: int, b: int| 0 <= a < b < pd.len() implies #[trigger] pd[a].0 != #[trigger] pd[b].0 by {
                assert(pd[a] == ps[a] && pd[b] == ps[b]);
            }
        }
        lemma_fold_insert_get(pd);
        let x = ps.last();
        lemma_meta_insert(fold_insert(pd), x.0, x.1);
        assert(ps =~= pd.push(x));
        assert forall|k: Seq<char>| #[trigger] meta_get(fold_insert(ps), k) == meta_get(ps, k) by {
            lemma_first_index_push(pd, key_is(k), x);
            lemma_first_index(pd, key_is(k));
            if k == x.0 {
                if first_index(pd, key_is(k)) is Some {
                    let j = first_index(pd, key_is(k))->0;
                    assert(pd[j] == ps[j]);
                    assert(ps[j].0 != ps[ps.len() - 1].0);
                }
            }
        }
    }
}

proof fn lemma_line_body_no_newline(p: (Seq<char>, Seq<char>))
    requires
        entry_ok(p),
    ensures
        !line_body(p).contains('\n'),
        line_body(p).len() >= 2,
        line_body(p).last() != '\r',
{
    reveal_strlit(": ");
    let b = line_body(p);
    assert forall|i: int| 0 <= i < b.len() implies b[i] != '\n' by {
        if i < p.0.len() {
            assert(b[i] == p.0[i]);
        } else if i >= p.0.len() + 2 {
            assert(b[i] == p.1[i - p.0.len() - 2]);
        }
    }
    if p.1.len() > 0 {
        assert(b.last() == p.1.last());
        assert(trim(p.1) == p.1);
        crate::text::lemma_trimmed_ends(p.1);
    }
}

proof fn lemma_meta_line_chars(k: Seq<char>, v: Seq<char>)
    requires
        !k.contains('\n'),
        !v.contains('\n'),
    ensures
        meta_line(k, v).len() == k.len() + v.len() + 3,
        meta_line(k, v)[k.len() as int] == ':',
        meta_line(k, v)[k.len() + 1int] == ' ',
        meta_line(k, v).last() == '\n',
        forall|i: int| 0 <= i < meta_line(k, v).len() - 1 ==> #[trigger] meta_line(k, v)[i] != '\n',
        forall|i: int| 0 <= i < k.len() ==> #[trigger] meta_line(k, v)[i] == k[i],
{
    reveal_strlit(": ");
    reveal_strlit("\n");
    let l = meta_line(k, v);
    assert forall|i: int| 0 <= i < l.len() - 1 implies #[trigger] l[i] != '\n' by {
        if i < k.len() {
            assert(l[i] == k[i]);
        } else if i >= k.len() + 2 {
            assert(l[i] == v[i - k.len() - 2]);
        }
    }
}

/// In the written lines, the frame's closing marker can only follow the last line.
proof fn lemma_no_early_marker(ps: Seq<(Seq<char>, Seq<char>)>, z: Seq<char>)
    requires
        forall|i: int| 0 <= i < ps.len() ==> #[trigger] entry_ok(ps[i]),
    ensures
        forall|j: int| 0 <= j < lines_of(ps).len() - 1 ==> !occurs_at(lines_of(ps) + z, "\n---\n"@, j),
    decreases ps.len(),
{
    reveal_strlit("\n---\n");
    if ps.len() > 0 {
        let pd = ps.drop_last();
        assert forall|i: int| 0 <= i < pd.len() implies #[trigger] entry_ok(pd[i]) by {
            assert(pd[i] == ps[i]);
        }
        let x = ps.last();
        assert(entry_ok(ps[ps.len() - 1]));
        let ln = meta_line(x.0, x.1);
        lemma_meta_line_chars(x.0, x.1);
        lemma_no_early_marker(pd, ln + z);
        let l0 = lines_of(pd);
        let all = lines_of(ps) + z;
        assert(all =~= l0 + (ln + z));
        let pat = "\n---\n"@;
        assert forall|j: int| 0 <= j < lines_of(ps).len() - 1 implies !occurs_at(all, pat, j) by {
            if j < l0.len() - 1 {
            } else if j == l0.len() - 1 {
                if occurs_at(all, pat, j) {
                    let k = x.0.len() as int;
                    assert(all.subrange(j, j + 5) == pat);
                    if k <= 3 {
                        assert(all[j + 1 + k] == ln[k as int]);
                        assert(all.subrange(j, j + 5)[1 + k as int] == pat[1 + k as int]);
                    } else {
                        assert(all[j + 4] == ln[3]);
                        assert(ln[3] == x.0[3]);
                        assert(all.subrange(j, j + 5)[4] == pat[4]);
                    }
                }
            } else {
                if occurs_at(all, pat, j) {
                    assert(all[j] == ln[j - l0.len()]);
                    assert(all.subrange(j, j + 5)[0] == pat[0]);
                }
            }
        }
    }
}

pub open spec fn bodies(ps: Seq<(Seq<char>, Seq<char>)>) -> Seq<Seq<char>> {
    ps.map_values(|p: (Seq<char>, Seq<char>)| line_body(p))
}

proof fn lemma_lines_of_shape(ps: Seq<(Seq<char>, Seq<char>)>)
    requires
        ps.len() > 0,
    ensures
        lines_of(ps).len() > 0,
        lines_of(ps).last() == '\n',
        lines_of(ps).drop_last() == join(bodies(ps), "\n"@),
    decreases ps.len(),
{
    reveal_strlit("\n");
    reveal_strlit(": ");
    let pd = ps.drop_last();
    let x = ps.last();
    assert(bodies(ps).drop_last() =~= bodies(pd));
    assert(bodies(ps).last() == line_body(x));
    if pd.len() == 0 {
        assert(lines_of(pd) =~= Seq::<char>::empty());
        assert(lines_of(ps).drop_last() =~= line_body(x));
        assert(bodies(ps).len() == 1);
    } else {
        lemma_lines_of_shape(pd);
        assert(lines_of(pd) =~= lines_of(pd).drop_last().push('\n'));
        assert(lines_of(ps).drop_last() =~= join(bodies(pd), "\n"@) + "\n"@ + line_body(x));
    }
}

proof fn lemma_split_join(pieces: Seq<Seq<char>>)
    requires
        pieces.len() > 0,
        forall|i: int| 0 <= i < pieces.len() ==> !(#[trigger] pieces[i]).contains('\n'),
    ensures
        crate::text::split(join(pieces, "\n"@), '\n') == pieces,
    decreases pieces.len(),
{
    reveal_strlit("\n");
    if pieces.len() == 1 {
        crate::text::lemma_split_single(pieces[0], '\n');
        assert(seq![pieces[0]] =~= pieces);
    } else {
        let pd = pieces.drop_last();
        assert forall|i: int| 0 <= i < pd.len() implies !(#[trigger] pd[i]).contains('\n') by {
            assert(pd[i] == pieces[i]);
        }
        lemma_split_join(pd);
        assert(!pieces[pieces.len() - 1].contains('\n'));
        crate::text::lemma_split_single(pieces.last(), '\n');
        crate::text::lemma_split_concat(join(pd, "\n"@), pieces.last(), '\n');
        assert(join(pieces, "\n"@) =~= join(pd, "\n"@) + seq!['\n'] + pieces.last());
        assert(pd + seq![pieces.last()] =~= pieces);
    }
}

proof fn lemma_lines_join(pieces: Seq<Seq<char>>)
    requires
        pieces.len() > 0,
        forall|i: int| 0 <= i < pieces.len() ==> !(#[trigger] pieces[i]).contains('\n'),
        forall|i: int| 0 <= i < pieces.len() ==> (#[trigger] pieces[i]).len() > 0 && pieces[i].last() != '\r',
    ensures
        lines(join(pieces, "\n"@)) == pieces,
{
    reveal_strlit("\n");
    let s = join(pieces, "\n"@);
    lemma_split_join(pieces);
    lemma_join_last(pieces);
    assert(s.len() > 0);
    assert(s.last() != '\n') by {
        assert(pieces[pieces.len() - 1] == pieces.last());
    }
    let p = crate::text::split(s, '\n');
    assert(p.drop_last().map_values(|l: Seq<char>| crate::text::strip_cr(l)) =~= pieces.drop_last()) by {
        assert forall|i: int| 0 <= i < pieces.len() - 1 implies crate::text::strip_cr(#[trigger] pieces[i]) == pieces[i] by {}
    }
    assert(pieces.drop_last().push(pieces.last()) =~= pieces);
}

proof fn lemma_join_last(pieces: Seq<Seq<char>>)
    requires
        pieces.len() > 0,
        pieces.last().len() > 0,
    ensures
        join(pieces, "\n"@).len() > 0,
        join(pieces, "\n"@).last() == pieces.last().last(),
{
    if pieces.len() > 1 {
        assert(join(pieces, "\n"@) == join(pieces.drop_last(), "\n"@) + "\n"@ + pieces.last());
    }
}

proof fn lemma_front_meta_bodies(ps: Seq<(Seq<char>, Seq<char>)>)
    requires
        forall|i: int| 0 <= i < ps.len() ==> #[trigger] entry_ok(ps[i]),
    ensures
        front_meta(bodies(ps)) == fold_insert(ps),
    decreases ps.len(),
{
    reveal_strlit(": ");
    if ps.len() > 0 {
        let pd = ps.drop_last();
        assert forall|i: int| 0 <= i < pd.len() implies #[trigger] entry_ok(pd[i]) by {
            assert(pd[i] == ps[i]);
        }
        lemma_front_meta_bodies(pd);
        assert(bodies(ps).drop_last() =~= bodies(pd));
        let x = ps.last();
        assert(entry_ok(ps[ps.len() - 1]));
        let l = line_body(x);
        assert(bodies(ps).last() == l);
        let k = x.0;
        assert(occurs_at(l, ": "@, k.len() as int)) by {
            assert(l.subrange(k.len() as int, k.len() + 2int) =~= ": "@);
        }
        assert forall|j: int| 0 <= j < k.len() implies !occurs_at(l, ": "@, j) by {
            if occurs_at(l, ": "@, j) {
                assert(l.subrange(j, j + 2) == ": "@);
                assert(l[j] == ':' && l[j + 1] == ' ') by {
                    assert(l.subrange(j, j + 2)[0] == l[j]);
                    assert(l.subrange(j, j + 2)[1] == l[j + 1]);
                }
                if j + 1 < k.len() {
                    assert(l[j] == k[j] && l[j + 1] == k[j + 1]);
                    assert(k.subrange(j, j + 2) =~= ": "@);
                    assert(occurs_at(k, ": "@, j));
                } else {
                    assert(l[j + 1] == ':');
                }
            }
        }
        lemma_find_str_at(l, ": "@, k.len() as int);
        assert(l.take(k.len() as int) =~= k);
        assert(l.skip(k.len() + 2int) =~= x.1);
    }
}

/// What a graph file gives back of what was written: every key with its
/// value, and the body trimmed with one closing newline (nothing for a
/// blank body), for metadata with at least one key whose keys and values
/// are trimmed single lines and whose keys hold no `": "`.
pub proof fn law_frontmatter_round_trip(m: Seq<(Seq<char>, Seq<char>)>, body: Seq<char>)
    requires
        m.len() > 0,
        unique_keys(m),
        forall|i: int| 0 <= i < m.len() ==> #[trigger] entry_ok(m[i]),
    ensures
        forall|k: Seq<char>| #[trigger] meta_get(frontmatter(formatted(m, body)).0, k) == meta_get(m, k),
        frontmatter(formatted(m, body)).1 == if trim(body).len() > 0 { trim(body) + "\n"@ } else { Seq::empty() },
{
    reveal_strlit("---\n");
    reveal_strlit("\n---\n");
    reveal_strlit("\n");
    let ps = written_pairs(m);
    lemma_key_order_distinct();
    lemma_ordered_pairs(m, key_order());
    lemma_other_pairs(m);
    let op = ordered_pairs(m, key_order());
    let xp = other_pairs(m);
    // the written entries: each key of `m` once, with its value
    assert(unique_keys(ps)) by {
        assert forall|a: int, b: int| 0 <= a < b < ps.len() implies #[trigger] ps[a].0 != #[trigger] ps[b].0 by {
            if b < op.len() {
                assert(ps[a] == op[a] && ps[b] == op[b]);
            } else if a >= op.len() {
                assert(ps[a] == xp[a - op.len()] && ps[b] == xp[b - op.len()]);
            } else {
                assert(ps[a] == op[a] && ps[b] == xp[b - op.len()]);
                assert(key_order().contains(op[a].0));
                assert(!key_order().contains(xp[b - op.len()].0));
            }
        }
    }
    assert forall|k: Seq<char>| #[trigger] meta_get(ps, k) == meta_get(m, k) by {
        lemma_meta_get_concat(op, xp, k);
    }
    assert forall|i: int| 0 <= i < ps.len() implies #[trigger] entry_ok(ps[i]) by {
        if i < op.len() {
            assert(ps[i] == op[i]);
            assert(meta_get(op, op[i].0) == meta_get(m, op[i].0));
            lemma_first_index(op, key_is(op[i].0));
            let a = first_index(op, key_is(op[i].0))->0;
            if a != i {
                assert(op[a].0 == op[i].0);
            }
            lemma_first_index(m, key_is(op[i].0));
            let b = first_index(m, key_is(op[i].0))->0;
            assert(entry_ok(m[b]));
        } else {
            assert(ps[i] == xp[i - op.len()]);
            let j = choose|j: int| 0 <= j < m.len() && m[j] == xp[i - op.len()];
            assert(entry_ok(m[j]));
        }
    }
    assert(ps.len() > 0) by {
        let k0 = m[0].0;
        lemma_first_index(m, key_is(k0));
        assert(meta_get(m, k0) is Some);
        assert(meta_get(ps, k0) is Some);
    }
    // the text as written
    lemma_ordered_lines(m, key_order());
    lemma_other_lines(m);
    lemma_lines_of_concat(op, xp);
    let lw = lines_of(ps);
    let tail = if trim(body).len() > 0 { "\n"@ + trim(body) + "\n"@ } else { Seq::<char>::empty() };
    let text = formatted(m, body);
    assert(text =~= "---\n"@ + lw + "---\n"@ + tail);
    assert(starts_with(text, "---\n"@)) by {
        assert(text.subrange(0, 4) =~= "---\n"@);
    }
    let rest = text.skip(4);
    assert(rest =~= lw + ("---\n"@ + tail));
    // the frame closes after the last written line
    lemma_lines_of_shape(ps);
    let e = lw.len() - 1;
    lemma_no_early_marker(ps, "---\n"@ + tail);
    assert(occurs_at(rest, "\n---\n"@, e)) by {
        assert(rest.subrange(e, e + 5) =~= "\n---\n"@);
    }
    lemma_find_str_at(rest, "\n---\n"@, e);
    // the metadata read back
    assert(rest.take(e) =~= lw.drop_last());
    let pieces = bodies(ps);
    assert forall|i: int| 0 <= i < pieces.len() implies !(#[trigger] pieces[i]).contains('\n')
        && pieces[i].len() > 0 && pieces[i].last() != '\r' by {
        lemma_line_body_no_newline(ps[i]);
    }
    lemma_lines_join(pieces);
    lemma_front_meta_bodies(ps);
    lemma_fold_insert_get(ps);
    // the body read back
    assert(rest.skip(e + 5) =~= tail);
    if trim(body).len() > 0 {
        crate::text::lemma_trim_idempotent(body);
        crate::text::lemma_trimmed_ends(trim(body));
        assert(tail.drop_first() =~= trim(body) + "\n"@);
        assert(trim_leading_newlines(tail) == trim_leading_newlines(trim(body) + "\n"@));
        assert((trim(body) + "\n"@)[0] == trim(body)[0]);
    }
}

} // verus!
