//! The knowledge-graph tools: keyword search over node files, and the
//! descriptors of the five graph tools.
use vstd::prelude::*;

use crate::graph::pair_views;
use crate::schemas::{permission_views, Permission, PermissionView};
use crate::text::{
    lowercase, lowercase_of, contains, occurs_at, contains_chars, copy_string, deep, is_ws, is_ws_char, join, join_strings, owned,
    push_str, string_of, to_chars, views,
};
use crate::tools::custom_permission;

verus! {

// ─────────────────────────────── words ─────────────────────────────────────

/// The words of `s` (`str::split_whitespace`): its maximal runs of
/// non-whitespace characters, in order.
pub open spec fn words(s: Seq<char>) -> Seq<Seq<char>>
    decreases s.len(),
{
    if s.len() == 0 {
        seq![]
    } else {
        let p = words(s.drop_last());
        let c = s.last();
        if is_ws(c) {
            p
        } else if s.len() >= 2 && !is_ws(s[s.len() - 2]) {
            p.update(p.len() - 1, p.last().push(c))
        } else {
            p.push(seq![c])
        }
    }
}

proof fn lemma_words_open_word(s: Seq<char>)
    requires
        s.len() > 0,
        !is_ws(s.last()),
    ensures
        words(s).len() > 0,
    decreases s.len(),
{
    if s.len() >= 2 && !is_ws(s[s.len() - 2]) {
        lemma_words_open_word(s.drop_last());
    }
}

/// The words of `v`.
pub fn words_chars(v: &Vec<char>) -> (r: Vec<Vec<char>>)
    ensures
        deep(r@) == words(v@),
{
    let mut out: Vec<Vec<char>> = Vec::new();
    let mut cur: Vec<char> = Vec::new();
    let mut i: usize = 0;
    assert(v@.take(0) =~= Seq::<char>::empty());
    assert(deep(out@) =~= Seq::<Seq<char>>::empty());
    while i < v.len()
        invariant
            i <= v.len(),
            cur@.len() > 0 <==> (i > 0 && !is_ws(v@[i - 1])),
            words(v@.take(i as int)) == deep(out@) + if cur@.len() > 0 {
                seq![cur@]
            } else {
                Seq::<Seq<char>>::empty()
            },
        decreases v.len() - i,
    {
        let c = v[i];
        let ghost before = deep(out@);
        let ghost old_cur = cur@;
        proof {
            assert(v@.take(i + 1).drop_last() =~= v@.take(i as int));
            assert(v@.take(i + 1).last() == c);
            if i > 0 {
                assert(v@.take(i + 1)[i - 1] == v@[i - 1]);
            }
        }
        if is_ws_char(c) {
            if cur.len() > 0 {
                let done = cur;
                out.push(done);
                cur = Vec::new();
                assert(deep(out@) =~= before.push(done@));
                assert(words(v@.take(i + 1)) =~= deep(out@));
            } else {
                assert(words(v@.take(i + 1)) =~= deep(out@) + Seq::<Seq<char>>::empty());
            }
        } else {
            if cur.len() > 0 {
                cur.push(c);
                let ghost p = before + seq![old_cur];
                assert(p.update(p.len() - 1, p.last().push(c)) =~= before + seq![cur@]);
            } else {
                cur.push(c);
                assert(cur@ =~= seq![c]);
                assert((before + Seq::<Seq<char>>::empty()).push(seq![c]) =~= before + seq![cur@]);
            }
        }
        i += 1;
    }
    assert(v@.take(v.len() as int) =~= v@);
    if cur.len() > 0 {
        let ghost before = deep(out@);
        out.push(cur);
        assert(deep(out@) =~= before + seq![cur@]);
    } else {
        assert(deep(out@) + Seq::<Seq<char>>::empty() =~= deep(out@));
    }
    out
}

// ─────────────────────────────── keyword hits ──────────────────────────────

/// How many of the search terms occur, lowercased, in the lowercased text.
pub open spec fn hit_count(terms: Seq<Seq<char>>, lowered_text: Seq<char>) -> nat
    decreases terms.len(),
{
    if terms.len() == 0 {
        0
    } else {
        hit_count(terms.drop_last(), lowered_text) + if contains(
            lowered_text,
            lowercase_of(terms.last()),
        ) {
            1nat
        } else {
            0nat
        }
    }
}

/// Whether `p` occurs as a run of consecutive characters somewhere in `s`.
pub open spec fn occurs_in(s: Seq<char>, p: Seq<char>) -> bool {
    exists|i: int| 0 <= i && i + p.len() <= s.len() && #[trigger] s.subrange(i, i + p.len()) == p
}

/// A search term is a hit exactly when its lowercase form occurs, as a run
/// of consecutive characters (not necessarily a whole word), in the
/// lowercased text: no terms give no hits, and one more term adds one hit
/// when it occurs and none when it does not.
pub proof fn law_hit_is_a_substring_match(terms: Seq<Seq<char>>, w: Seq<char>, lowered_text: Seq<char>)
    ensures
        hit_count(Seq::empty(), lowered_text) == 0,
        occurs_in(lowered_text, lowercase_of(w)) ==> hit_count(terms.push(w), lowered_text) == hit_count(terms, lowered_text) + 1,
        !occurs_in(lowered_text, lowercase_of(w)) ==> hit_count(terms.push(w), lowered_text) == hit_count(terms, lowered_text),
{
    let t2 = terms.push(w);
    assert(t2.drop_last() =~= terms);
    assert(t2.last() == w);
    let lw = lowercase_of(w);
    if occurs_in(lowered_text, lw) {
        let i = choose|i: int| 0 <= i && i + lw.len() <= lowered_text.len() && #[trigger] lowered_text.subrange(i, i + lw.len()) == lw;
        assert(occurs_at(lowered_text, lw, i));
    }
    if contains(lowered_text, lw) {
        let i = choose|i: int| occurs_at(lowered_text, lw, i);
        assert(lowered_text.subrange(i, i + lw.len()) == lw);
    }
}

/// A one-word query scores one hit out of one word exactly when the word,
/// lowercased, occurs in the lowercased text, and none out of one otherwise.
pub proof fn law_one_word_query(query: Seq<char>, text: Seq<char>)
    requires
        words(query).len() == 1,
    ensures
        occurs_in(lowercase_of(text), lowercase_of(words(query)[0])) ==> hit_count(words(query), lowercase_of(text)) == 1,
        !occurs_in(lowercase_of(text), lowercase_of(words(query)[0])) ==> hit_count(words(query), lowercase_of(text)) == 0,
{
    let ws = words(query);
    assert(ws =~= Seq::<Seq<char>>::empty().push(ws[0]));
    law_hit_is_a_substring_match(Seq::empty(), ws[0], lowercase_of(text));
}

/// The keyword match of a search query against a node's text: the number of
/// query words found in the text, case folded, and the number of query words.
/// A node's score is the first divided by the second.
pub fn keyword_hits(query: &str, text: &str) -> (r: (usize, usize))
    ensures
        r.0 == hit_count(words(query@), lowercase_of(text@)),
        r.1 == words(query@).len(),
{
    let lowered = lowercase(text);
    let tv = to_chars(lowered.as_str());
    let qv = to_chars(query);
    let terms = words_chars(&qv);
    let mut hits: usize = 0;
    let mut i: usize = 0;
    while i < terms.len()
        invariant
            i <= terms.len(),
            tv@ == lowercase_of(text@),
            deep(terms@) == words(query@),
            hits == hit_count(deep(terms@).take(i as int), tv@),
            hits <= i,
        decreases terms.len() - i,
    {
        let term = string_of(&terms[i]);
        let lt = lowercase(term.as_str());
        let lv = to_chars(lt.as_str());
        proof {
            let t = deep(terms@).take(i + 1);
            assert(t.drop_last() =~= deep(terms@).take(i as int));
            assert(t.last() == terms@[i as int]@);
        }
        if contains_chars(&tv, &lv) {
            hits += 1;
        }
        i += 1;
    }
    assert(deep(terms@).take(terms.len() as int) =~= deep(terms@));
    (hits, terms.len())
}


// ─────────────────────────────── ranking ───────────────────────────────────

/// Whether node `i` matched the query at all.
pub open spec fn is_match(hits: Seq<usize>, i: int) -> bool {
    0 <= i < hits.len() && hits[i] > 0
}

/// Node `a` ranks above node `b`: more hits first, and among equal counts the
/// earlier node first (a stable sort by descending score).
pub open spec fn outranks(hits: Seq<usize>, a: int, b: int) -> bool {
    hits[a] > hits[b] || (hits[a] == hits[b] && a < b)
}

/// The search result order: the positions of the nodes that matched, best
/// first, at most `top_k` of them. Every matching node that is left out
/// ranks below every node that is kept, and one is left out only when
/// `top_k` are kept.
pub fn rank_matches(hits: &Vec<usize>, top_k: usize) -> (r: Vec<usize>)
    ensures
        r.len() <= top_k,
        forall|j: int| 0 <= j < r.len() ==> is_match(hits@, #[trigger] r@[j] as int),
        forall|j: int, k: int|
            0 <= j < k < r.len() ==> outranks(hits@, #[trigger] r@[j] as int, #[trigger] r@[k] as int),
        forall|i: int|
            is_match(hits@, i) && !r@.contains(i as usize) ==> r.len() == top_k,
        forall|i: int, j: int|
            #![trigger is_match(hits@, i), r@[j]]
            is_match(hits@, i) && !r@.contains(i as usize) && 0 <= j < r.len() ==> outranks(
                hits@,
                r@[j] as int,
                i,
            ),
{
    let n = hits.len();
    let mut taken: Vec<bool> = Vec::new();
    let mut t: usize = 0;
    while t < n
        invariant
            t <= n,
            n == hits.len(),
            taken.len() == t,
            forall|i: int| 0 <= i < t ==> !taken@[i],
        decreases n - t,
    {
        taken.push(false);
        t += 1;
    }
    let mut r: Vec<usize> = Vec::new();
    let mut done = false;
    while r.len() < top_k && !done
        invariant
            n == hits.len(),
            taken.len() == n,
            r.len() <= top_k,
            forall|i: int| 0 <= i < n ==> (taken@[i] <==> r@.contains(i as usize)),
            forall|j: int| 0 <= j < r.len() ==> is_match(hits@, #[trigger] r@[j] as int),
            forall|j: int, k: int|
                0 <= j < k < r.len() ==> outranks(hits@, #[trigger] r@[j] as int, #[trigger] r@[k] as int),
            forall|i: int, j: int|
                #![trigger is_match(hits@, i), r@[j]]
                is_match(hits@, i) && !taken@[i] && 0 <= j < r.len() ==> outranks(
                    hits@,
                    r@[j] as int,
                    i,
                ),
            done ==> forall|i: int| is_match(hits@, i) ==> taken@[i],
        decreases (top_k - r.len()) + if done { 0int } else { 1int },
    {
        let mut found = false;
        let mut best: usize = 0;
        let mut i: usize = 0;
        while i < n
            invariant
                i <= n,
                n == hits.len(),
                taken.len() == n,
                found ==> best < i && is_match(hits@, best as int) && !taken@[best as int],
                forall|m: int|
                    0 <= m < i && is_match(hits@, m) && !taken@[m] ==> found && (m == best
                        || outranks(hits@, best as int, m)),
            decreases n - i,
        {
            if hits[i] > 0 && !taken[i] {
                if !found || hits[i] > hits[best] {
                    found = true;
                    best = i;
                }
            }
            i += 1;
        }
        if found {
            let ghost r0 = r@;
            let ghost t0 = taken@;
            r.push(best);
            taken.set(best, true);
            proof {
                assert forall|m: int| 0 <= m < n implies (taken@[m] <==> r@.contains(m as usize)) by {
                    if m == best as int {
                        assert(r@[r0.len() as int] == best);
                    } else {
                        if r@.contains(m as usize) {
                            let j = choose|j: int| 0 <= j < r@.len() && r@[j] == m as usize;
                            assert(j < r0.len());
                            assert(r0[j] == m as usize);
                        }
                        if r0.contains(m as usize) {
                            let j = choose|j: int| 0 <= j < r0.len() && r0[j] == m as usize;
                            assert(r@[j] == m as usize);
                        }
                    }
                }
                assert forall|j: int, k: int|
                    0 <= j < k < r.len() implies outranks(hits@, #[trigger] r@[j] as int, #[trigger] r@[k] as int) by {
                    if k == r0.len() {
                        assert(r@[j] == r0[j]);
                        assert(is_match(hits@, best as int) && !t0[best as int]);
                    } else {
                        assert(r@[j] == r0[j] && r@[k] == r0[k]);
                    }
                }
                assert forall|m: int, j: int|
                    #![trigger is_match(hits@, m), r@[j]]
                    is_match(hits@, m) && !taken@[m] && 0 <= j < r.len() implies outranks(
                        hits@,
                        r@[j] as int,
                        m,
                    ) by {
                    assert(m != best as int);
                    assert(!t0[m]);
                    if j == r0.len() {
                        assert(r@[j] == best);
                    } else {
                        assert(r@[j] == r0[j]);
                    }
                }
            }
        } else {
            done = true;
        }
    }
    proof {
        assert forall|m: int| is_match(hits@, m) && !r@.contains(m as usize) implies r.len() == top_k by {
            assert(!taken@[m]);
        }
    }
    r
}

// ─────────────────────────────── search text ───────────────────────────────

/// The metadata values, in order.
pub open spec fn meta_values(m: Seq<(Seq<char>, Seq<char>)>) -> Seq<Seq<char>> {
    m.map_values(|p: (Seq<char>, Seq<char>)| p.1)
}

/// The text a node is searched in: its metadata values joined by spaces,
/// a space, then its body.
pub fn node_search_text(meta: &Vec<(String, String)>, body: &str) -> (r: String)
    ensures
        r@ == join(meta_values(pair_views(meta@)), " "@) + " "@ + body@,
{
    let mut values: Vec<String> = Vec::new();
    let mut i: usize = 0;
    while i < meta.len()
        invariant
            i <= meta.len(),
            views(values@) == meta_values(pair_views(meta@)).take(i as int),
        decreases meta.len() - i,
    {
        let ghost before = values@;
        values.push(copy_string(&meta[i].1));
        assert(views(values@) =~= meta_values(pair_views(meta@)).take(i + 1)) by {
            assert(views(values@) =~= views(before).push(meta@[i as int].1@));
        }
        i += 1;
    }
    assert(meta_values(pair_views(meta@)).take(meta.len() as int) =~= meta_values(pair_views(meta@)));
    let mut r = join_strings(&values, " ");
    push_str(&mut r, " ");
    push_str(&mut r, body);
    r
}

// ─────────────────────────────── descriptors ───────────────────────────────

/// Searches the node files of the graph by keyword.
pub struct GraphQueryTool {
    pub data_dir: String,
}

impl GraphQueryTool {
    pub fn new(data_dir: &str) -> (r: GraphQueryTool)
        ensures
            r.data_dir@ == data_dir@,
    {
        GraphQueryTool { data_dir: owned(data_dir) }
    }

    pub fn name(&self) -> (r: &'static str)
        ensures
            r@ == "graph.query"@,
    {
        "graph.query"
    }

    pub fn description(&self) -> (r: &'static str)
        ensures
            r@ == "Search graph nodes by keyword. Parameters: query (string), top_k (int, default 5)."@,
    {
        "Search graph nodes by keyword. Parameters: query (string), top_k (int, default 5)."
    }

    /// Reading the graph needs no permission.
    pub fn required_permissions(&self) -> (r: Vec<Permission>)
        ensures
            r@.len() == 0,
    {
        Vec::new()
    }
}

/// Reads one node of the graph.
pub struct GraphNodeTool {
    pub data_dir: String,
}

impl GraphNodeTool {
    pub fn new(data_dir: &str) -> (r: GraphNodeTool)
        ensures
            r.data_dir@ == data_dir@,
    {
        GraphNodeTool { data_dir: owned(data_dir) }
    }

    pub fn name(&self) -> (r: &'static str)
        ensures
            r@ == "graph.node"@,
    {
        "graph.node"
    }

    pub fn description(&self) -> (r: &'static str)
        ensures
            r@ == "Get a graph node by ID. Parameter: node_id (string)."@,
    {
        "Get a graph node by ID. Parameter: node_id (string)."
    }

    /// Reading the graph needs no permission.
    pub fn required_permissions(&self) -> (r: Vec<Permission>)
        ensures
            r@.len() == 0,
    {
        Vec::new()
    }
}

/// Lists the nodes within a number of hops of a node.
pub struct GraphNeighborsTool {
    pub data_dir: String,
}

impl GraphNeighborsTool {
    pub fn new(data_dir: &str) -> (r: GraphNeighborsTool)
        ensures
            r.data_dir@ == data_dir@,
    {
        GraphNeighborsTool { data_dir: owned(data_dir) }
    }

    pub fn name(&self) -> (r: &'static str)
        ensures
            r@ == "graph.neighbors"@,
    {
        "graph.neighbors"
    }

    pub fn description(&self) -> (r: &'static str)
        ensures
            r@ == "Get nodes within N hops of a given node. Parameters: node_id (string), hops (int, default 1)."@,
    {
        "Get nodes within N hops of a given node. Parameters: node_id (string), hops (int, default 1)."
    }

    /// Reading the graph needs no permission.
    pub fn required_permissions(&self) -> (r: Vec<Permission>)
        ensures
            r@.len() == 0,
    {
        Vec::new()
    }
}

/// Writes a new node file.
pub struct GraphAddNodeTool {
    pub data_dir: String,
}

impl GraphAddNodeTool {
    pub fn new(data_dir: &str) -> (r: GraphAddNodeTool)
        ensures
            r.data_dir@ == data_dir@,
    {
        GraphAddNodeTool { data_dir: owned(data_dir) }
    }

    pub fn name(&self) -> (r: &'static str)
        ensures
            r@ == "graph.add_node"@,
    {
        "graph.add_node"
    }

    pub fn description(&self) -> (r: &'static str)
        ensures
            r@ == "Add a node to the knowledge graph. Parameters: node_id (string, slug form e.g. node-deny-airspace), type (string: mission|capability|system|threat), name (string), body (string, optional description)."@,
    {
        "Add a node to the knowledge graph. Parameters: node_id (string, slug form e.g. node-deny-airspace), type (string: mission|capability|system|threat), name (string), body (string, optional description)."
    }

    pub fn required_permissions(&self) -> (r: Vec<Permission>)
        ensures
            permission_views(r@) == seq![PermissionView::Custom("graph.write"@)],
    {
        custom_permission("graph.write")
    }
}

/// Writes a new edge file.
pub struct GraphAddEdgeTool {
    pub data_dir: String,
}

impl GraphAddEdgeTool {
    pub fn new(data_dir: &str) -> (r: GraphAddEdgeTool)
        ensures
            r.data_dir@ == data_dir@,
    {
        GraphAddEdgeTool { data_dir: owned(data_dir) }
    }

    pub fn name(&self) -> (r: &'static str)
        ensures
            r@ == "graph.add_edge"@,
    {
        "graph.add_edge"
    }

    pub fn description(&self) -> (r: &'static str)
        ensures
            r@ == "Add a directed edge between two graph nodes. Parameters: edge_id (string), from_id (string), to_id (string), relationship (string: requires|provides|counters|vulnerable-to|threatens)."@,
    {
        "Add a directed edge between two graph nodes. Parameters: edge_id (string), from_id (string), to_id (string), relationship (string: requires|provides|counters|vulnerable-to|threatens)."
    }

    pub fn required_permissions(&self) -> (r: Vec<Permission>)
        ensures
            permission_views(r@) == seq![PermissionView::Custom("graph.write"@)],
    {
        custom_permission("graph.write")
    }
}

} // verus!
