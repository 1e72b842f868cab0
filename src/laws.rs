//! Properties of the document grammar that relate several documents or
//! several readings of one.

use vstd::prelude::*;
use crate::document::{
    classify, deck_of, indent, is_blank, is_marked, is_parse_of, is_space, lemma_skip_spaces_bounds,
    note_lines, para_scan, para_step, paragraphs, parsed_as, slides_of, text_body, ParaScan,
    Slide,
};
use crate::text::opt_view;

verus! {

/// Reading one document twice gives the same deck: the same indices, slide
/// types, bodies, paths and notes.
pub proof fn lemma_parse_deterministic(s: Seq<char>, d1: Seq<Slide>, d2: Seq<Slide>)
    requires
        is_parse_of(d1, s),
        is_parse_of(d2, s),
    ensures
        d1.len() == d2.len(),
        forall|i: int|
            0 <= i < d1.len() ==> {
                &&& (#[trigger] d1[i]).index == d2[i].index
                &&& d1[i].slide_type@ == d2[i].slide_type@
                &&& opt_view(d1[i].notes) == opt_view(d2[i].notes)
            },
{
    assert forall|i: int| 0 <= i < d1.len() implies {
        &&& (#[trigger] d1[i]).index == d2[i].index
        &&& d1[i].slide_type@ == d2[i].slide_type@
        &&& opt_view(d1[i].notes) == opt_view(d2[i].notes)
    } by {
        assert(parsed_as(d1[i], i, deck_of(s)[i]));
        assert(parsed_as(d2[i], i, deck_of(s)[i]));
    }
}

/// In a parsed deck the slide at position `i` has index `i + 1`.
pub proof fn lemma_parse_indices(s: Seq<char>, d: Seq<Slide>)
    requires
        is_parse_of(d, s),
    ensures
        forall|i: int| 0 <= i < d.len() ==> (#[trigger] d[i]).index == i + 1,
{
    assert forall|i: int| 0 <= i < d.len() implies (#[trigger] d[i]).index == i + 1 by {
        assert(parsed_as(d[i], i, deck_of(s)[i]));
    }
}

proof fn lemma_all_notes(p: Seq<Seq<char>>)
    requires
        forall|i: int| 0 <= i < p.len() ==> is_marked(#[trigger] p[i], '|'),
    ensures
        text_body(p).len() == 0,
        note_lines(p).len() == p.len(),
    decreases p.len(),
{
    if p.len() > 0 {
        let q = p.drop_last();
        assert forall|i: int| 0 <= i < q.len() implies is_marked(#[trigger] q[i], '|') by {
            assert(q[i] == p[i]);
        }
        lemma_all_notes(q);
        assert(is_marked(p[p.len() - 1], '|'));
    }
}

/// A paragraph made only of note lines (`|`) makes no slide: adding it to a
/// document's paragraphs leaves the deck as it was.
pub proof fn lemma_comment_paragraph_dropped(p: Seq<Seq<char>>, ps: Seq<Seq<Seq<char>>>)
    requires
        p.len() > 0,
        forall|i: int| 0 <= i < p.len() ==> is_marked(#[trigger] p[i], '|'),
    ensures
        classify(p) is None,
        slides_of(ps.push(p)) == slides_of(ps),
{
    let first = p[0];
    assert(is_marked(first, '|'));
    lemma_skip_spaces_bounds(first, 0);
    if indent(first) > 0 {
        assert(is_space(first[0]));
    }
    lemma_all_notes(p);
    assert(ps.push(p).drop_last() =~= ps);
}

/// The paragraph scan started from `st` and run over `ls`.
pub open spec fn para_scan_from(st: ParaScan, ls: Seq<Seq<char>>) -> ParaScan
    decreases ls.len(),
{
    if ls.len() == 0 {
        st
    } else {
        para_step(para_scan_from(st, ls.drop_last()), ls.last())
    }
}

proof fn lemma_scan_from_start(ls: Seq<Seq<char>>)
    ensures
        para_scan(ls) == para_scan_from((Seq::empty(), Seq::empty(), false), ls),
    decreases ls.len(),
{
    if ls.len() > 0 {
        lemma_scan_from_start(ls.drop_last());
    }
}

proof fn lemma_scan_concat(st: ParaScan, a: Seq<Seq<char>>, b: Seq<Seq<char>>)
    ensures
        para_scan_from(st, a + b) == para_scan_from(para_scan_from(st, a), b),
    decreases b.len(),
{
    if b.len() == 0 {
        assert(a + b =~= a);
    } else {
        assert((a + b).drop_last() =~= a + b.drop_last());
        assert((a + b).last() == b.last());
        lemma_scan_concat(st, a, b.drop_last());
    }
}

/// Two scan states that will close the same number of paragraphs.
pub open spec fn scans_alike(s1: ParaScan, s2: ParaScan) -> bool {
    &&& s1.0.len() == s2.0.len()
    &&& (s1.1.len() > 0 <==> s2.1.len() > 0)
    &&& s1.2 == s2.2
}

proof fn lemma_alike_scans(s1: ParaScan, s2: ParaScan, ls: Seq<Seq<char>>)
    requires
        scans_alike(s1, s2),
    ensures
        scans_alike(para_scan_from(s1, ls), para_scan_from(s2, ls)),
    decreases ls.len(),
{
    if ls.len() > 0 {
        lemma_alike_scans(s1, s2, ls.drop_last());
    }
}

proof fn lemma_fence_open_paragraph(ls: Seq<Seq<char>>)
    ensures
        para_scan(ls).2 ==> para_scan(ls).1.len() > 0,
    decreases ls.len(),
{
    if ls.len() > 0 {
        lemma_fence_open_paragraph(ls.drop_last());
    }
}

/// A blank line inside an open code fence does not end the paragraph: it
/// joins the open paragraph, and a document with the line has as many
/// paragraphs as the same document without it.
pub proof fn lemma_fenced_blank_line_kept(a: Seq<Seq<char>>, l: Seq<char>, b: Seq<Seq<char>>)
    requires
        para_scan(a).2,
        is_blank(l),
    ensures
        para_scan(a.push(l)).0 == para_scan(a).0,
        para_scan(a.push(l)).1 == para_scan(a).1.push(l),
        paragraphs(a.push(l) + b).len() == paragraphs(a + b).len(),
{
    let init: ParaScan = (Seq::empty(), Seq::empty(), false);
    assert(a.push(l).drop_last() =~= a);
    lemma_fence_open_paragraph(a);
    lemma_scan_from_start(a);
    lemma_scan_from_start(a.push(l));
    lemma_scan_from_start(a.push(l) + b);
    lemma_scan_from_start(a + b);
    lemma_scan_concat(init, a.push(l), b);
    lemma_scan_concat(init, a, b);
    lemma_alike_scans(para_scan(a.push(l)), para_scan(a), b);
}

} // verus!
