//! Cutting rulebook text into chunks for indexing: paragraphs, and long
//! paragraphs packed sentence by sentence under a size limit.
use vstd::prelude::*;

use crate::graph::{find_chars, find_str};
use crate::text::{
    char_width, contains, occurs_at, copy_chars, deep, is_ws, lemma_trim_idempotent, lemma_utf8_prefix_le, owned, string_of,
    sub_chars, to_chars, trim, trim_chars, trim_end, trim_start, utf8_len, utf8_len_upto, utf8_width,
};

verus! {

/// The most bytes a chunk may hold before a long paragraph is split.
pub open spec fn max_chunk() -> nat {
    600
}

/// `str::split` with a non-empty string pattern: the pieces between its
/// occurrences, left to right.
pub open spec fn split_on(s: Seq<char>, p: Seq<char>) -> Seq<Seq<char>>
    decreases s.len(),
{
    if p.len() == 0 {
        seq![s]
    } else {
        match find_str(s, p) {
            Some(i) => if 0 <= i && i + p.len() <= s.len() {
                seq![s.take(i)] + split_on(s.skip(i + p.len()), p)
            } else {
                seq![s]
            },
            None => seq![s],
        }
    }
}

/// Sentences packed greedily: the chunks closed so far and the chunk being
/// filled. A sentence joins the current chunk (after `". "`) unless that
/// would pass the limit, in which case the current chunk is closed, trimmed.
pub open spec fn greedy(sents: Seq<Seq<char>>) -> (Seq<Seq<char>>, Seq<char>)
    decreases sents.len(),
{
    if sents.len() == 0 {
        (Seq::empty(), Seq::empty())
    } else {
        let prev = greedy(sents.drop_last());
        let cs = prev.0;
        let cur = prev.1;
        let s = sents.last();
        let cand = if cur.len() == 0 { s } else { cur + ". "@ + s };
        if utf8_len(cand) > max_chunk() && cur.len() > 0 {
            (cs.push(trim(cur)), s)
        } else {
            (cs, cand)
        }
    }
}

/// How many leading characters of `c`, at most `k` of them, fit in the
/// limit: the largest `j <= k` whose prefix is within it.
pub open spec fn fit_from(c: Seq<char>, k: int) -> int
    decreases k,
{
    if k <= 0 {
        0
    } else if utf8_len(c.take(k)) <= max_chunk() {
        k
    } else {
        fit_from(c, k - 1)
    }
}

/// The longest prefix of `c` within the limit, in characters.
pub open spec fn fit_len(c: Seq<char>) -> int {
    fit_from(c, c.len() as int)
}

/// A packed chunk cut into pieces within the limit: the longest prefix that
/// fits, trimmed (dropped when blank), then the rest in the same way.
pub open spec fn cut(c: Seq<char>) -> Seq<Seq<char>>
    decreases c.len(),
{
    if c.len() == 0 {
        Seq::empty()
    } else {
        let k = fit_len(c);
        if 1 <= k <= c.len() {
            let h = trim(c.take(k));
            (if h.len() > 0 { seq![h] } else { Seq::empty() }) + cut(c.skip(k))
        } else {
            Seq::empty()
        }
    }
}

pub open spec fn cut_all(cs: Seq<Seq<char>>) -> Seq<Seq<char>>
    decreases cs.len(),
{
    if cs.len() == 0 {
        Seq::empty()
    } else {
        cut_all(cs.drop_last()) + cut(cs.last())
    }
}

/// The chunks of a paragraph longer than the limit: its sentences packed
/// greedily, and any packed chunk still over the limit (a sentence longer
/// than the limit) cut into pieces that fit.
pub open spec fn long_chunks(para: Seq<char>) -> Seq<Seq<char>> {
    let g = greedy(split_on(para, ". "@));
    cut_all(if trim(g.1).len() > 0 { g.0.push(trim(g.1)) } else { g.0 })
}

/// What every chunk is: non-empty, trimmed, and within the limit.
pub open spec fn good_chunk(c: Seq<char>) -> bool {
    c.len() > 0 && trim(c) == c && utf8_len(c) <= max_chunk()
}

pub proof fn lemma_utf8_concat(a: Seq<char>, b: Seq<char>)
    ensures
        utf8_len(a + b) == utf8_len(a) + utf8_len(b),
    decreases b.len(),
{
    if b.len() == 0 {
        assert(a + b =~= a);
    } else {
        lemma_utf8_concat(a, b.drop_last());
        assert((a + b).drop_last() =~= a + b.drop_last());
    }
}

proof fn lemma_utf8_trim_start(s: Seq<char>)
    ensures
        utf8_len(trim_start(s)) <= utf8_len(s),
    decreases s.len(),
{
    if s.len() > 0 && is_ws(s[0]) {
        lemma_utf8_trim_start(s.drop_first());
        assert(s =~= seq![s[0]] + s.drop_first());
        lemma_utf8_concat(seq![s[0]], s.drop_first());
    }
}

proof fn lemma_utf8_trim_end(s: Seq<char>)
    ensures
        utf8_len(trim_end(s)) <= utf8_len(s),
    decreases s.len(),
{
    if s.len() > 0 && is_ws(s.last()) {
        lemma_utf8_trim_end(s.drop_last());
    }
}

proof fn lemma_utf8_trim(s: Seq<char>)
    ensures
        utf8_len(trim(s)) <= utf8_len(s),
{
    lemma_utf8_trim_start(s);
    lemma_utf8_trim_end(trim_start(s));
}

proof fn lemma_fit_from(c: Seq<char>, k: int)
    requires
        0 <= k <= c.len(),
    ensures
        0 <= fit_from(c, k) <= k,
        utf8_len(c.take(fit_from(c, k))) <= max_chunk(),
        k >= 1 ==> fit_from(c, k) >= 1,
    decreases k,
{
    if k > 0 {
        if utf8_len(c.take(k)) > max_chunk() {
            lemma_fit_from(c, k - 1);
            if k == 1 {
                assert(c.take(1).drop_last() =~= Seq::<char>::empty());
                assert(utf8_len(c.take(1)) == utf8_len(c.take(1).drop_last()) + utf8_width(c.take(1).last()));
                assert(utf8_len(c.take(1)) <= 4);
            }
        }
    } else {
        assert(c.take(0) =~= Seq::<char>::empty());
    }
}

proof fn lemma_fit_from_is(c: Seq<char>, i: int, j: int)
    requires
        0 <= i <= j <= c.len(),
        utf8_len(c.take(i)) <= max_chunk(),
        forall|m: int| i < m <= j ==> #[trigger] utf8_len(c.take(m)) > max_chunk(),
    ensures
        fit_from(c, j) == i,
    decreases j,
{
    if j > i {
        lemma_fit_from_is(c, i, j - 1);
    } else if i == 0 {
    }
}

proof fn lemma_cut_good(c: Seq<char>)
    ensures
        forall|j: int| 0 <= j < cut(c).len() ==> good_chunk(#[trigger] cut(c)[j]),
    decreases c.len(),
{
    if c.len() > 0 {
        let k = fit_len(c);
        lemma_fit_from(c, c.len() as int);
        lemma_cut_good(c.skip(k));
        let h = trim(c.take(k));
        lemma_trim_idempotent(c.take(k));
        lemma_utf8_trim(c.take(k));
        let first: Seq<Seq<char>> = if h.len() > 0 { seq![h] } else { Seq::empty() };
        assert(cut(c) == first + cut(c.skip(k)));
        assert forall|j: int| 0 <= j < cut(c).len() implies good_chunk(#[trigger] cut(c)[j]) by {
            if j < first.len() {
                assert(cut(c)[j] == h);
            } else {
                assert(cut(c)[j] == cut(c.skip(k))[j - first.len()]);
            }
        }
    }
}

proof fn lemma_cut_all_good(cs: Seq<Seq<char>>)
    ensures
        forall|j: int| 0 <= j < cut_all(cs).len() ==> good_chunk(#[trigger] cut_all(cs)[j]),
    decreases cs.len(),
{
    if cs.len() > 0 {
        lemma_cut_all_good(cs.drop_last());
        lemma_cut_good(cs.last());
        let a = cut_all(cs.drop_last());
        assert forall|j: int| 0 <= j < cut_all(cs).len() implies good_chunk(#[trigger] cut_all(cs)[j]) by {
            if j < a.len() {
                assert(cut_all(cs)[j] == a[j]);
            } else {
                assert(cut_all(cs)[j] == cut(cs.last())[j - a.len()]);
            }
        }
    }
}

proof fn lemma_para_good(p: Seq<char>)
    ensures
        forall|j: int| 0 <= j < para_chunks(p).len() ==> good_chunk(#[trigger] para_chunks(p)[j]),
{
    let t = trim(p);
    if t.len() > 0 && utf8_len(t) <= max_chunk() {
        lemma_trim_idempotent(p);
        assert(para_chunks(p) == seq![t]);
    } else if t.len() > 0 {
        let g = greedy(split_on(t, ". "@));
        lemma_cut_all_good(if trim(g.1).len() > 0 { g.0.push(trim(g.1)) } else { g.0 });
    }
}

/// Every chunk of a text is non-empty, trimmed, and at most 600 bytes.
pub proof fn law_chunks_within_limit(text: Seq<char>)
    ensures
        forall|j: int| 0 <= j < text_chunks(text).len() ==> good_chunk(#[trigger] text_chunks(text)[j]),
{
    lemma_chunks_of_good(split_on(text, "\n\n"@));
}

/// No two consecutive line breaks in `t`.
pub open spec fn no_blank_line(t: Seq<char>) -> bool {
    forall|i: int| 0 <= i && i + 1 < t.len() ==> !(#[trigger] t[i] == '\n' && t[i + 1] == '\n')
}

proof fn lemma_split_without_separator(t: Seq<char>)
    requires
        no_blank_line(t),
    ensures
        split_on(t, "\n\n"@) == seq![t],
{
    reveal_strlit("\n\n");
    let sep = "\n\n"@;
    assert(sep =~= seq!['\n', '\n']);
    if contains(t, sep) {
        let i = choose|i: int| occurs_at(t, sep, i);
        assert(t.subrange(i, i + 2)[0] == sep[0]);
        assert(t.subrange(i, i + 2)[1] == sep[1]);
        assert(t[i] == '\n' && t[i + 1] == '\n');
    }
    reveal(find_str);
    assert(find_str(t, sep) is None);
}

/// A text with no blank-line separator (no `"\n\n"`) is one paragraph: when
/// it is not blank and, trimmed, at most 600 bytes, it is exactly one chunk,
/// the text trimmed, with its single line breaks kept.
pub proof fn law_one_paragraph_one_chunk(text: Seq<char>)
    requires
        no_blank_line(text),
        trim(text).len() > 0,
        utf8_len(trim(text)) <= 600,
    ensures
        text_chunks(text) == seq![trim(text)],
{
    lemma_split_without_separator(text);
    let ps = seq![text];
    assert(ps.drop_last() =~= Seq::<Seq<char>>::empty());
    assert(chunks_of(ps) == chunks_of(ps.drop_last()) + para_chunks(text));
    assert(chunks_of(ps) =~= seq![trim(text)]);
}

proof fn lemma_first_blank_line(a: Seq<char>, b: Seq<char>)
    requires
        no_blank_line(a),
        a.len() > 0 && a.last() != '\n',
    ensures
        find_str(a + seq!['\n', '\n'] + b, seq!['\n', '\n']) == Some(a.len() as int),
{
    let sep = seq!['\n', '\n'];
    let s = a + sep + b;
    let n = a.len() as int;
    assert(s.subrange(n, n + 2) =~= sep);
    assert(occurs_at(s, sep, n));
    assert forall|j: int| 0 <= j < n implies !occurs_at(s, sep, j) by {
        if occurs_at(s, sep, j) {
            assert(s.subrange(j, j + 2)[0] == sep[0]);
            assert(s.subrange(j, j + 2)[1] == sep[1]);
            assert(s[j] == '\n' && s[j + 1] == '\n');
            if j + 1 < n {
                assert(a[j] == '\n' && a[j + 1] == '\n');
            } else {
                assert(a[j] == a.last());
            }
        }
    }
    reveal(find_str);
    assert(contains(s, sep));
    let w = choose|w: int| occurs_at(s, sep, w) && forall|j: int| 0 <= j < w ==> !occurs_at(s, sep, j);
    assert(occurs_at(s, sep, w) && forall|j: int| 0 <= j < w ==> !occurs_at(s, sep, j));
    if w < n {
        assert(!occurs_at(s, sep, w));
    }
    if w > n {
        assert(!occurs_at(s, sep, n));
    }
}

/// A blank line (`"\n\n"`) separates paragraphs: two short, non-blank
/// paragraphs joined by one give two chunks, each paragraph trimmed, in
/// order (the first paragraph not ending in a line break, so that the blank
/// line is the one that joins them).
pub proof fn law_blank_line_separates_paragraphs(a: Seq<char>, b: Seq<char>)
    requires
        no_blank_line(a),
        no_blank_line(b),
        a.len() > 0 && a.last() != '\n',
        trim(a).len() > 0 && utf8_len(trim(a)) <= 600,
        trim(b).len() > 0 && utf8_len(trim(b)) <= 600,
    ensures
        text_chunks(a + "\n\n"@ + b) == seq![trim(a), trim(b)],
{
    reveal_strlit("\n\n");
    let sep = "\n\n"@;
    assert(sep =~= seq!['\n', '\n']);
    let s = a + sep + b;
    let n = a.len() as int;
    lemma_first_blank_line(a, b);
    assert(s.take(n) =~= a);
    assert(s.skip(n + 2) =~= b);
    lemma_split_without_separator(b);
    assert(split_on(s, sep) == seq![a] + seq![b]);
    let ps = seq![a, b];
    assert(seq![a] + seq![b] =~= ps);
    lemma_two_paragraph_chunks(a, b);
}

proof fn lemma_two_paragraph_chunks(a: Seq<char>, b: Seq<char>)
    requires
        trim(a).len() > 0 && utf8_len(trim(a)) <= 600,
        trim(b).len() > 0 && utf8_len(trim(b)) <= 600,
    ensures
        chunks_of(seq![a, b]) == seq![trim(a), trim(b)],
{
    let ps = seq![a, b];
    assert(ps.drop_last() =~= seq![a]);
    assert(seq![a].drop_last() =~= Seq::<Seq<char>>::empty());
    assert(chunks_of(seq![a]) == chunks_of(Seq::<Seq<char>>::empty()) + para_chunks(a));
    assert(chunks_of(ps) == chunks_of(seq![a]) + para_chunks(b));
    assert(chunks_of(ps) =~= seq![trim(a), trim(b)]);
}

proof fn lemma_chunks_of_good(ps: Seq<Seq<char>>)
    ensures
        forall|j: int| 0 <= j < chunks_of(ps).len() ==> good_chunk(#[trigger] chunks_of(ps)[j]),
    decreases ps.len(),
{
    if ps.len() > 0 {
        lemma_chunks_of_good(ps.drop_last());
        lemma_para_good(ps.last());
        let a = chunks_of(ps.drop_last());
        assert forall|j: int| 0 <= j < chunks_of(ps).len() implies good_chunk(#[trigger] chunks_of(ps)[j]) by {
            if j < a.len() {
                assert(chunks_of(ps)[j] == a[j]);
            } else {
                assert(chunks_of(ps)[j] == para_chunks(ps.last())[j - a.len()]);
            }
        }
    }
}

/// The chunks of one paragraph: none when blank, the trimmed paragraph when
/// within the limit, else its packed sentences.
pub open spec fn para_chunks(p: Seq<char>) -> Seq<Seq<char>> {
    let t = trim(p);
    if t.len() == 0 {
        Seq::empty()
    } else if utf8_len(t) <= max_chunk() {
        seq![t]
    } else {
        long_chunks(t)
    }
}

pub open spec fn chunks_of(paras: Seq<Seq<char>>) -> Seq<Seq<char>>
    decreases paras.len(),
{
    if paras.len() == 0 {
        Seq::empty()
    } else {
        chunks_of(paras.drop_last()) + para_chunks(paras.last())
    }
}

/// The chunks of a text: its paragraphs (separated by blank lines) in order.
pub open spec fn text_chunks(text: Seq<char>) -> Seq<Seq<char>> {
    chunks_of(split_on(text, "\n\n"@))
}

/// Splits `v` at every occurrence of the non-empty pattern `p`.
pub fn split_on_chars(v: &Vec<char>, p: &Vec<char>) -> (r: Vec<Vec<char>>)
    requires
        p.len() > 0,
    ensures
        deep(r@) == split_on(v@, p@),
{
    let mut r: Vec<Vec<char>> = Vec::new();
    let mut rest = copy_chars(v);
    loop
        invariant
            p.len() > 0,
            deep(r@) + split_on(rest@, p@) == split_on(v@, p@),
        decreases rest.len(),
    {
        match find_chars(&rest, p) {
            Some(i) => {
                let head = sub_chars(&rest, 0, i);
                let tail = sub_chars(&rest, i + p.len(), rest.len());
                assert(head@ =~= rest@.take(i as int));
                assert(tail@ =~= rest@.skip(i + p.len()));
                let ghost d0 = deep(r@);
                r.push(head);
                assert(deep(r@) =~= d0.push(head@));
                assert(split_on(rest@, p@) == seq![rest@.take(i as int)] + split_on(tail@, p@));
                assert(deep(r@) + split_on(tail@, p@) =~= d0 + split_on(rest@, p@));
                rest = tail;
            },
            None => {
                let ghost d0 = deep(r@);
                assert(split_on(rest@, p@) == seq![rest@]);
                r.push(rest);
                assert(deep(r@) =~= d0 + split_on(v@, p@).skip(d0.len() as int)) by {
                    assert(split_on(v@, p@) =~= d0 + seq![rest@]);
                }
                assert(deep(r@) =~= split_on(v@, p@));
                return r;
            },
        }
    }
}

fn long_paragraph_chunks(para: &Vec<char>) -> (r: Vec<Vec<char>>)
    ensures
        deep(r@) == long_chunks(para@),
{
    proof {
        reveal_strlit(". ");
    }
    let sep = to_chars(". ");
    let sents = split_on_chars(para, &sep);
    let ghost ss = deep(sents@);
    let mut cs: Vec<Vec<char>> = Vec::new();
    let mut cur: Vec<char> = Vec::new();
    let mut i: usize = 0;
    assert(ss.take(0) =~= Seq::<Seq<char>>::empty());
    while i < sents.len()
        invariant
            i <= sents.len(),
            ss == deep(sents@),
            sep@ == ". "@,
            greedy(ss.take(i as int)) == (deep(cs@), cur@),
        decreases sents.len() - i,
    {
        assert(ss.take(i + 1).drop_last() =~= ss.take(i as int));
        assert(ss.take(i + 1).last() == sents@[i as int]@);
        let s = &sents[i];
        let mut cand: Vec<char> = copy_chars(&cur);
        if cur.len() > 0 {
            cand.push('.');
            cand.push(' ');
            let mut k: usize = 0;
            let ghost base = cand@;
            while k < s.len()
                invariant
                    k <= s.len(),
                    cand@ == base + s@.take(k as int),
                decreases s.len() - k,
            {
                cand.push(s[k]);
                assert(s@.take(k + 1) =~= s@.take(k as int).push(s@[k as int]));
                k += 1;
            }
            assert(s@.take(s.len() as int) =~= s@);
            proof {
                reveal_strlit(". ");
            }
            assert(cand@ =~= cur@ + ". "@ + s@);
        } else {
            cand = copy_chars(s);
        }
        let too_long = utf8_len_upto(&cand, 600).is_none();
        if too_long && cur.len() > 0 {
            let t = trim_chars(&cur);
            let ghost d0 = deep(cs@);
            cs.push(t);
            assert(deep(cs@) =~= d0.push(t@));
            cur = copy_chars(s);
        } else {
            cur = cand;
        }
        i += 1;
    }
    assert(ss.take(sents.len() as int) =~= ss);
    let t = trim_chars(&cur);
    if t.len() > 0 {
        let ghost d0 = deep(cs@);
        cs.push(t);
        assert(deep(cs@) =~= d0.push(t@));
    }
    let ghost packed = deep(cs@);
    let mut out: Vec<Vec<char>> = Vec::new();
    let mut j: usize = 0;
    assert(packed.take(0) =~= Seq::<Seq<char>>::empty());
    while j < cs.len()
        invariant
            j <= cs.len(),
            packed == deep(cs@),
            deep(out@) == cut_all(packed.take(j as int)),
        decreases cs.len() - j,
    {
        assert(packed.take(j + 1).drop_last() =~= packed.take(j as int));
        assert(packed.take(j + 1).last() == cs@[j as int]@);
        let pieces = cut_chars(&cs[j]);
        let ghost d0 = deep(out@);
        let mut k: usize = 0;
        while k < pieces.len()
            invariant
                k <= pieces.len(),
                deep(out@) == d0 + deep(pieces@).take(k as int),
            decreases pieces.len() - k,
        {
            let c = copy_chars(&pieces[k]);
            let ghost before = deep(out@);
            out.push(c);
            assert(deep(out@) =~= before.push(c@));
            assert(deep(pieces@).take(k + 1) =~= deep(pieces@).take(k as int).push(pieces@[k as int]@));
            k += 1;
        }
        assert(deep(pieces@).take(pieces.len() as int) =~= deep(pieces@));
        j += 1;
    }
    assert(packed.take(cs.len() as int) =~= packed);
    out
}

/// The longest prefix of `v` within the limit, in characters.
fn fit_prefix(v: &Vec<char>) -> (k: usize)
    ensures
        k as int == fit_len(v@),
        k <= v.len(),
{
    let mut n: usize = 0;
    let mut i: usize = 0;
    assert(v@.take(0) =~= Seq::<char>::empty());
    while i < v.len() && char_width(v[i]) <= 600 - n
        invariant
            i <= v.len(),
            n == utf8_len(v@.take(i as int)),
            n <= 600,
        decreases v.len() - i,
    {
        assert(v@.take(i + 1).drop_last() =~= v@.take(i as int));
        n = n + char_width(v[i]);
        i += 1;
    }
    proof {
        if i < v.len() {
            assert(v@.take(i + 1).drop_last() =~= v@.take(i as int));
            assert forall|m: int| i < m <= v.len() implies #[trigger] utf8_len(v@.take(m)) > max_chunk() by {
                lemma_utf8_prefix_le(v@.take(m), i + 1);
                assert(v@.take(m).take(i + 1) =~= v@.take(i + 1));
            }
        }
        lemma_fit_from_is(v@, i as int, v.len() as int);
    }
    i
}

/// A packed chunk cut into pieces within the limit (see [`cut`]).
fn cut_chars(c: &Vec<char>) -> (r: Vec<Vec<char>>)
    ensures
        deep(r@) == cut(c@),
{
    let mut r: Vec<Vec<char>> = Vec::new();
    let mut rest = copy_chars(c);
    loop
        invariant
            deep(r@) + cut(rest@) == cut(c@),
        decreases rest.len(),
    {
        if rest.len() == 0 {
            assert(deep(r@) + cut(rest@) =~= deep(r@));
            return r;
        }
        let k = fit_prefix(&rest);
        proof {
            lemma_fit_from(rest@, rest@.len() as int);
        }
        let head = sub_chars(&rest, 0, k);
        let tail = sub_chars(&rest, k, rest.len());
        assert(head@ =~= rest@.take(k as int));
        assert(tail@ =~= rest@.skip(k as int));
        let h = trim_chars(&head);
        let ghost d0 = deep(r@);
        if h.len() > 0 {
            r.push(h);
            assert(deep(r@) =~= d0 + seq![h@]);
        }
        assert(deep(r@) + cut(tail@) =~= d0 + cut(rest@));
        rest = tail;
    }
}

/// Splits a rulebook text into chunks, each with its source and its index.
///
/// Paragraphs are separated by blank lines; a trimmed paragraph of at most
/// 600 bytes is one chunk, a longer one is packed sentence by sentence, and
/// a sentence longer than 600 bytes is cut further: every chunk is
/// non-empty, trimmed and at most 600 bytes.
pub fn chunk_text(text: &str, source: &str) -> (r: Vec<(String, String, usize)>)
    ensures
        r.len() == text_chunks(text@).len(),
        forall|i: int| 0 <= i < r.len() ==> #[trigger] r@[i].0@ == text_chunks(text@)[i]
            && r@[i].1@ == source@ && r@[i].2 == i,
        forall|i: int| 0 <= i < r.len() ==> good_chunk(#[trigger] r@[i].0@),
{
    proof {
        law_chunks_within_limit(text@);
    }
    proof {
        reveal_strlit("\n\n");
    }
    let v = to_chars(text);
    let sep = to_chars("\n\n");
    let paras = split_on_chars(&v, &sep);
    let ghost ps = deep(paras@);
    let mut out: Vec<Vec<char>> = Vec::new();
    let mut i: usize = 0;
    assert(ps.take(0) =~= Seq::<Seq<char>>::empty());
    while i < paras.len()
        invariant
            i <= paras.len(),
            ps == deep(paras@),
            ps == split_on(text@, "\n\n"@),
            deep(out@) == chunks_of(ps.take(i as int)),
        decreases paras.len() - i,
    {
        assert(ps.take(i + 1).drop_last() =~= ps.take(i as int));
        assert(ps.take(i + 1).last() == paras@[i as int]@);
        let t = trim_chars(&paras[i]);
        let ghost d0 = deep(out@);
        if t.len() == 0 {
            assert(deep(out@) =~= d0 + para_chunks(paras@[i as int]@));
        } else if utf8_len_upto(&t, 600).is_some() {
            out.push(t);
            assert(deep(out@) =~= d0 + para_chunks(paras@[i as int]@));
        } else {
            let pieces = long_paragraph_chunks(&t);
            let mut k: usize = 0;
            while k < pieces.len()
                invariant
                    k <= pieces.len(),
                    deep(out@) == d0 + deep(pieces@).take(k as int),
                decreases pieces.len() - k,
            {
                let c = copy_chars(&pieces[k]);
                let ghost before = deep(out@);
                out.push(c);
                assert(deep(out@) =~= before.push(c@));
                assert(deep(pieces@).take(k + 1) =~= deep(pieces@).take(k as int).push(pieces@[k as int]@));
                k += 1;
            }
            assert(deep(pieces@).take(pieces.len() as int) =~= deep(pieces@));
            assert(deep(out@) =~= d0 + para_chunks(paras@[i as int]@));
        }
        i += 1;
    }
    assert(ps.take(paras.len() as int) =~= ps);
    let ghost all = deep(out@);
    let mut r: Vec<(String, String, usize)> = Vec::new();
    let mut j: usize = 0;
    while j < out.len()
        invariant
            j <= out.len(),
            all == deep(out@),
            all == text_chunks(text@),
            r.len() == j,
            forall|k: int| 0 <= k < j ==> #[trigger] r@[k].0@ == all[k] && r@[k].1@ == source@ && r@[k].2 == k,
        decreases out.len() - j,
    {
        r.push((string_of(&out[j]), owned(source), j));
        j += 1;
    }
    r
}

} // verus!
