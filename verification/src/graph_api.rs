//! The graph API of the admin server: the order it lists nodes and edges
//! in, and the node and edge files it creates.
use vstd::prelude::*;

use crate::graph::{
    fold_insert, format_frontmatter, formatted, lemma_meta_insert, meta_get, meta_insert, meta_position,
    meta_set, node_body, pair_views, unique_keys,
};
use crate::text::{
    copy_string, key_before, lemma_views_push, owned, push_str, starts_with, string_of, to_chars, trim,
    trim_chars, views,
};

verus! {

/// The id a node or edge is listed by: its `id`, or empty.
pub open spec fn id_key(m: Seq<(Seq<char>, Seq<char>)>) -> Seq<char> {
    match meta_get(m, "id"@) {
        Some(v) => v,
        None => seq![],
    }
}

pub open spec fn id_keys(ms: Seq<Vec<(String, String)>>) -> Seq<Seq<char>> {
    ms.map_values(|m: Vec<(String, String)>| id_key(pair_views(m@)))
}

/// The order the graph API lists nodes or edges in: by id, files with the
/// same id in the order they were read.
pub fn listing_order(metas: &Vec<Vec<(String, String)>>) -> (r: Vec<usize>)
    ensures
        r.len() == metas.len(),
        forall|j: int| 0 <= j < r.len() ==> #[trigger] r@[j] < metas.len(),
        forall|k: usize| k < metas.len() ==> #[trigger] r@.contains(k),
        forall|j: int, k: int|
            0 <= j < k < r.len() ==> key_before(id_keys(metas@), #[trigger] r@[j] as int, #[trigger] r@[k] as int),
{
    let id = to_chars("id");
    let mut keys: Vec<String> = Vec::new();
    let mut i: usize = 0;
    while i < metas.len()
        invariant
            i <= metas.len(),
            id@ == "id"@,
            views(keys@) == id_keys(metas@).take(i as int),
        decreases metas.len() - i,
    {
        let k = match meta_position(&metas[i], &id) {
            Some(j) => copy_string(&metas[i][j].1),
            None => String::new(),
        };
        proof {
            lemma_views_push(keys@, k);
        }
        keys.push(k);
        assert(views(keys@) =~= id_keys(metas@).take(i + 1));
        i += 1;
    }
    assert(id_keys(metas@).take(metas.len() as int) =~= id_keys(metas@));
    crate::text::order_by_key(&keys)
}

/// A node the graph API was asked to create has no id.
#[derive(Debug, Clone, Copy, PartialEq, Eq, Structural)]
pub enum NodeError {
    MissingId,
}

/// A node file: its metadata, its body and the text written to disk.
pub struct NodeFile {
    pub meta: Vec<(String, String)>,
    pub body: String,
    pub content: String,
}

pub open spec fn opt_entry(k: Seq<char>, v: Option<Seq<char>>) -> Seq<(Seq<char>, Seq<char>)> {
    match v {
        Some(x) => seq![(k, x)],
        None => seq![],
    }
}

/// The fields a new node sets, in order: its id, its type and name when
/// given, its creation time, then the request's other string fields.
pub open spec fn node_entries(
    id: Seq<char>,
    node_type: Option<Seq<char>>,
    name: Option<Seq<char>>,
    created: Seq<char>,
    extra: Seq<(Seq<char>, Seq<char>)>,
) -> Seq<(Seq<char>, Seq<char>)> {
    seq![("id"@, id)] + opt_entry("type"@, node_type) + opt_entry("name"@, name) + seq![("created"@, created)] + extra
}

/// The name a node's heading shows: its `name`, else its id.
pub open spec fn display_name(meta: Seq<(Seq<char>, Seq<char>)>, id: Seq<char>) -> Seq<char> {
    match meta_get(meta, "name"@) {
        Some(n) => n,
        None => id,
    }
}

pub open spec fn opt_seq(o: Option<&str>) -> Option<Seq<char>> {
    match o {
        Some(s) => Some(s@),
        None => None,
    }
}

proof fn lemma_fold_insert_unique(ps: Seq<(Seq<char>, Seq<char>)>)
    ensures
        unique_keys(fold_insert(ps)),
    decreases ps.len(),
{
    if ps.len() > 0 {
        lemma_fold_insert_unique(ps.drop_last());
        lemma_meta_insert(fold_insert(ps.drop_last()), ps.last().0, ps.last().1);
    }
}

fn set_all(meta: &mut Vec<(String, String)>, ps: &Vec<(String, String)>)
    ensures
        pair_views(final(meta)@) == fold_insert_onto(pair_views(old(meta)@), pair_views(ps@)),
{
    let ghost m0 = pair_views(meta@);
    let ghost qs = pair_views(ps@);
    let mut i: usize = 0;
    assert(qs.take(0) =~= Seq::<(Seq<char>, Seq<char>)>::empty());
    while i < ps.len()
        invariant
            i <= ps.len(),
            qs == pair_views(ps@),
            pair_views(meta@) == fold_insert_onto(m0, qs.take(i as int)),
        decreases ps.len() - i,
    {
        proof {
            assert(qs.take(i + 1).drop_last() =~= qs.take(i as int));
            assert(qs.take(i + 1).last() == qs[i as int]);
        }
        meta_set(meta, to_chars(ps[i].0.as_str()), to_chars(ps[i].1.as_str()));
        i += 1;
    }
    assert(qs.take(ps.len() as int) =~= qs);
}

/// Keys set one after the other onto existing metadata.
pub open spec fn fold_insert_onto(m: Seq<(Seq<char>, Seq<char>)>, ps: Seq<(Seq<char>, Seq<char>)>) -> Seq<(Seq<char>, Seq<char>)>
    decreases ps.len(),
{
    if ps.len() == 0 {
        m
    } else {
        meta_insert(fold_insert_onto(m, ps.drop_last()), ps.last().0, ps.last().1)
    }
}

proof fn lemma_fold_onto_concat(m: Seq<(Seq<char>, Seq<char>)>, ps: Seq<(Seq<char>, Seq<char>)>, qs: Seq<(Seq<char>, Seq<char>)>)
    ensures
        fold_insert_onto(fold_insert_onto(m, ps), qs) == fold_insert_onto(m, ps + qs),
    decreases qs.len(),
{
    if qs.len() == 0 {
        assert(ps + qs =~= ps);
    } else {
        lemma_fold_onto_concat(m, ps, qs.drop_last());
        assert((ps + qs).drop_last() =~= ps + qs.drop_last());
        assert((ps + qs).last() == qs.last());
    }
}

proof fn lemma_fold_onto_empty(ps: Seq<(Seq<char>, Seq<char>)>)
    ensures
        fold_insert_onto(Seq::empty(), ps) == fold_insert(ps),
    decreases ps.len(),
{
    if ps.len() > 0 {
        lemma_fold_onto_empty(ps.drop_last());
    }
}

/// A node the graph API creates: the id is trimmed and must not be empty;
/// the metadata sets the fields of [`node_entries`] one after the other; the
/// body is a heading of the node's name, then the request's text; the
/// content is metadata and body in the graph file format.
pub fn node_request(
    node_id: &str,
    node_type: Option<&str>,
    name: Option<&str>,
    extra: &Vec<(String, String)>,
    body: Option<&str>,
    created: &str,
) -> (r: Result<NodeFile, NodeError>)
    ensures
        (r is Err) <==> trim(node_id@).len() == 0,
        match r {
            Ok(f) => {
                let meta = fold_insert(node_entries(trim(node_id@), opt_seq(node_type), opt_seq(name), created@, pair_views(extra@)));
                &&& pair_views(f.meta@) == meta
                &&& f.body@ == node_body(display_name(meta, trim(node_id@)), match body { Some(b) => b@, None => seq![] })
                &&& f.content@ == formatted(meta, f.body@)
            },
            Err(e) => e == NodeError::MissingId,
        },
{
    let id = trim_chars(&to_chars(node_id));
    if id.len() == 0 {
        return Err(NodeError::MissingId);
    }
    let mut head: Vec<(String, String)> = Vec::new();
    head.push((owned("id"), string_of(&id)));
    match node_type {
        Some(t) => head.push((owned("type"), owned(t))),
        None => {},
    }
    match name {
        Some(n) => head.push((owned("name"), owned(n))),
        None => {},
    }
    head.push((owned("created"), owned(created)));
    let ghost hs = seq![("id"@, id@)] + opt_entry("type"@, opt_seq(node_type)) + opt_entry("name"@, opt_seq(name))
        + seq![("created"@, created@)];
    proof {
        reveal_strlit("id");
        reveal_strlit("type");
        reveal_strlit("name");
        reveal_strlit("created");
    }
    assert(pair_views(head@) =~= hs);
    let mut meta: Vec<(String, String)> = Vec::new();
    assert(pair_views(meta@) =~= Seq::<(Seq<char>, Seq<char>)>::empty());
    set_all(&mut meta, &head);
    set_all(&mut meta, extra);
    let ghost entries = node_entries(id@, opt_seq(node_type), opt_seq(name), created@, pair_views(extra@));
    proof {
        assert(entries =~= hs + pair_views(extra@));
        lemma_fold_onto_concat(Seq::empty(), hs, pair_views(extra@));
        lemma_fold_onto_empty(entries);
        lemma_fold_insert_unique(entries);
    }
    let name_v = to_chars("name");
    let shown = match meta_position(&meta, &name_v) {
        Some(j) => copy_string(&meta[j].1),
        None => string_of(&id),
    };
    let mut full = owned("# ");
    push_str(&mut full, shown.as_str());
    let text = match body {
        Some(b) => owned(b),
        None => String::new(),
    };
    if text.as_str().is_empty() {
        push_str(&mut full, "\n");
    } else {
        push_str(&mut full, "\n\n");
        push_str(&mut full, text.as_str());
    }
    let content = format_frontmatter(&meta, full.as_str());
    Ok(NodeFile { meta, body: full, content })
}

/// A lowercase hexadecimal digit.
pub open spec fn is_lower_hex(c: char) -> bool {
    ('0' <= c && c <= '9') || ('a' <= c && c <= 'f')
}

/// A fresh id, `Uuid::new_v4().simple().to_string()`: random, written as 32
/// lowercase hexadecimal digits.
#[verifier::external_body]
fn fresh_simple_id() -> (r: String)
    ensures
        r@.len() == 32,
        forall|i: int| 0 <= i < 32 ==> is_lower_hex(#[trigger] r@[i]),
{
    uuid::Uuid::new_v4().simple().to_string()
}

/// The id of a new edge: the requested one, else `edge-` and a fresh
/// random id of 32 lowercase hexadecimal digits.
pub fn edge_id_or_fresh(edge_id: Option<&str>) -> (r: String)
    ensures
        match edge_id {
            Some(e) => r@ == e@,
            None => r@.len() == 37 && starts_with(r@, "edge-"@) && forall|i: int| 5 <= i < 37 ==> is_lower_hex(#[trigger] r@[i]),
        },
{
    match edge_id {
        Some(e) => owned(e),
        None => {
            let mut r = owned("edge-");
            let id = fresh_simple_id();
            let ghost a = r@;
            push_str(&mut r, id.as_str());
            proof {
                reveal_strlit("edge-");
                assert(r@.subrange(0, 5) =~= "edge-"@);
                assert forall|i: int| 5 <= i < 37 implies is_lower_hex(#[trigger] r@[i]) by {
                    assert(r@[i] == id@[i - 5]);
                }
            }
            r
        },
    }
}

/// The relationship a new edge carries: the requested one, else `related`.
pub fn edge_relationship(relationship: Option<&str>) -> (r: String)
    ensures
        r@ == match relationship {
            Some(x) => x@,
            None => "related"@,
        },
{
    match relationship {
        Some(x) => owned(x),
        None => owned("related"),
    }
}

} // verus!
