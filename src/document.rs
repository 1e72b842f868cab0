//! The deck document grammar: lines, fenced code, paragraphs and slides.

use vstd::prelude::*;
use crate::fit::{fit_scale, fit_size, find_max_font_size, measurer, overflows, scale_to_fit, Scale, Size};
use crate::text::{chars_of, copy_range, join, join_lines, opt_view};

verus! {

/// What `char::is_whitespace` accepts: the Unicode `White_Space` characters.
pub open spec fn is_space(c: char) -> bool {
    ||| c == ' '
    ||| ('\t' <= c && c <= '\r')
    ||| c == '\u{85}'
    ||| c == '\u{a0}'
    ||| c == '\u{1680}'
    ||| ('\u{2000}' <= c && c <= '\u{200a}')
    ||| c == '\u{2028}'
    ||| c == '\u{2029}'
    ||| c == '\u{202f}'
    ||| c == '\u{205f}'
    ||| c == '\u{3000}'
}

pub fn space(c: char) -> (r: bool)
    ensures
        r == is_space(c),
{
    c == ' ' || ('\t' <= c && c <= '\r') || c == '\u{85}' || c == '\u{a0}' || c == '\u{1680}'
        || ('\u{2000}' <= c && c <= '\u{200a}') || c == '\u{2028}' || c == '\u{2029}'
        || c == '\u{202f}' || c == '\u{205f}' || c == '\u{3000}'
}

/// A line without its trailing carriage return, if it has one.
pub open spec fn strip_cr(l: Seq<char>) -> Seq<char> {
    if l.len() > 0 && l.last() == '\r' {
        l.drop_last()
    } else {
        l
    }
}

/// Lines split off so far, and the unfinished last line, after reading `s`.
pub open spec fn line_scan(s: Seq<char>) -> (Seq<Seq<char>>, Seq<char>)
    decreases s.len(),
{
    if s.len() == 0 {
        (Seq::empty(), Seq::empty())
    } else {
        let (done, cur) = line_scan(s.drop_last());
        if s.last() == '\n' {
            (done.push(strip_cr(cur)), Seq::empty())
        } else {
            (done, cur.push(s.last()))
        }
    }
}

/// The lines of `s`: split at each `'\n'`, a trailing `'\r'` dropped from each,
/// with no empty line after a final newline.
pub open spec fn lines_of(s: Seq<char>) -> Seq<Seq<char>> {
    let (done, cur) = line_scan(s);
    if cur.len() > 0 {
        done.push(strip_cr(cur))
    } else {
        done
    }
}

fn without_cr(l: Vec<char>) -> (r: Vec<char>)
    ensures
        r@ == strip_cr(l@),
{
    let mut l = l;
    if l.len() > 0 && l[l.len() - 1] == '\r' {
        l.pop();
    }
    l
}

pub fn split_lines(s: &str) -> (r: Vec<Vec<char>>)
    ensures
        r.deep_view() == lines_of(s@),
{
    let chars = chars_of(s);
    let mut done: Vec<Vec<char>> = Vec::new();
    let mut cur: Vec<char> = Vec::new();
    let mut i: usize = 0;
    while i < chars.len()
        invariant
            0 <= i <= chars@.len(),
            chars@ == s@,
            (done.deep_view(), cur@) == line_scan(chars@.take(i as int)),
        decreases chars.len() - i,
    {
        let c = chars[i];
        proof {
            assert(chars@.take(i + 1).drop_last() =~= chars@.take(i as int));
        }
        let ghost old_done = done.deep_view();
        if c == '\n' {
            let line = without_cr(cur);
            assert(line.deep_view() =~= line@);
            done.push(line);
            cur = Vec::new();
            assert(done.deep_view() =~= old_done.push(strip_cr(line_scan(chars@.take(i as int)).1)));
        } else {
            cur.push(c);
            assert(done.deep_view() =~= old_done);
        }
        i += 1;
    }
    assert(chars@.take(i as int) =~= s@);
    if cur.len() > 0 {
        let ghost old_done = done.deep_view();
        let ghost c = cur@;
        let line = without_cr(cur);
        assert(line.deep_view() =~= line@);
        done.push(line);
        assert(done.deep_view() =~= old_done.push(strip_cr(c)));
    }
    done
}


/// Index of the first non-space character of `l` at or after `i`, or `l.len()`.
pub open spec fn skip_spaces(l: Seq<char>, i: int) -> int
    decreases l.len() - i,
{
    if 0 <= i < l.len() && is_space(l[i]) {
        skip_spaces(l, i + 1)
    } else {
        i
    }
}

/// Number of leading space characters of `l`.
pub open spec fn indent(l: Seq<char>) -> int {
    skip_spaces(l, 0)
}

/// A line with nothing but spaces.
pub open spec fn is_blank(l: Seq<char>) -> bool {
    indent(l) >= l.len()
}

/// A line whose first non-space character is `c`.
pub open spec fn is_marked(l: Seq<char>, c: char) -> bool {
    indent(l) < l.len() && l[indent(l)] == c
}

/// A line whose content, leading spaces aside, starts with three backticks.
pub open spec fn is_fence(l: Seq<char>) -> bool {
    let k = indent(l);
    &&& k + 3 <= l.len()
    &&& l[k] == '`'
    &&& l[k + 1] == '`'
    &&& l[k + 2] == '`'
}

pub proof fn lemma_skip_spaces_bounds(l: Seq<char>, i: int)
    requires
        0 <= i <= l.len(),
    ensures
        i <= skip_spaces(l, i) <= l.len(),
        forall|j: int| i <= j < skip_spaces(l, i) ==> is_space(#[trigger] l[j]),
    decreases l.len() - i,
{
    if i < l.len() && is_space(l[i]) {
        lemma_skip_spaces_bounds(l, i + 1);
    }
}

/// Leading spaces of `l`: `indent(l@)`.
pub fn indent_of(l: &Vec<char>) -> (r: usize)
    ensures
        r == indent(l@),
        r <= l@.len(),
        forall|j: int| 0 <= j < r ==> is_space(#[trigger] l@[j]),
{
    let mut i: usize = 0;
    while i < l.len() && space(l[i])
        invariant
            0 <= i <= l@.len(),
            skip_spaces(l@, i as int) == skip_spaces(l@, 0),
            forall|j: int| 0 <= j < i ==> is_space(#[trigger] l@[j]),
        decreases l.len() - i,
    {
        i += 1;
    }
    i
}

pub fn blank(l: &Vec<char>) -> (r: bool)
    ensures
        r == is_blank(l@),
{
    indent_of(l) >= l.len()
}

pub fn marked(l: &Vec<char>, c: char) -> (r: bool)
    ensures
        r == is_marked(l@, c),
{
    let k = indent_of(l);
    k < l.len() && l[k] == c
}

pub fn fence(l: &Vec<char>) -> (r: bool)
    ensures
        r == is_fence(l@),
{
    let k = indent_of(l);
    k < l.len() && l.len() - k >= 3 && l[k] == '`' && l[k + 1] == '`' && l[k + 2] == '`'
}

/// State of the paragraph scan: finished paragraphs, the open one, and
/// whether a code fence is open.
pub type ParaScan = (Seq<Seq<Seq<char>>>, Seq<Seq<char>>, bool);

/// One line of the paragraph scan. A blank line outside a fence closes the
/// open paragraph; any other line joins it, and a fence line opens or closes
/// the fence.
pub open spec fn para_step(st: ParaScan, l: Seq<char>) -> ParaScan {
    if is_blank(l) && !st.2 {
        (if st.1.len() > 0 { st.0.push(st.1) } else { st.0 }, Seq::empty(), false)
    } else {
        (st.0, st.1.push(l), if is_fence(l) { !st.2 } else { st.2 })
    }
}

pub open spec fn para_scan(ls: Seq<Seq<char>>) -> ParaScan
    decreases ls.len(),
{
    if ls.len() == 0 {
        (Seq::empty(), Seq::empty(), false)
    } else {
        para_step(para_scan(ls.drop_last()), ls.last())
    }
}

/// The paragraphs of a document's lines: maximal runs of lines that are not
/// blank, where blank lines inside a fenced code block count as not blank.
pub open spec fn paragraphs(ls: Seq<Seq<char>>) -> Seq<Seq<Seq<char>>> {
    let st = para_scan(ls);
    if st.1.len() > 0 {
        st.0.push(st.1)
    } else {
        st.0
    }
}

proof fn lemma_line_view(ls: &Vec<Vec<char>>, i: int)
    requires
        0 <= i < ls@.len(),
    ensures
        ls.deep_view()[i] == ls@[i]@,
{
    assert(ls@[i].deep_view() =~= ls@[i]@);
}

/// The paragraphs of `ls`, as ranges of line indices.
pub fn split_paragraphs(ls: &Vec<Vec<char>>) -> (r: Vec<(usize, usize)>)
    ensures
        r@.len() == paragraphs(ls.deep_view()).len(),
        forall|j: int|
            0 <= j < r@.len() ==> {
                &&& (#[trigger] r@[j]).0 < r@[j].1 <= ls@.len()
                &&& ls.deep_view().subrange(r@[j].0 as int, r@[j].1 as int)
                    == paragraphs(ls.deep_view())[j]
            },
{
    let ghost lv = ls.deep_view();
    let mut r: Vec<(usize, usize)> = Vec::new();
    let mut start: usize = 0;
    let mut fenced = false;
    let mut i: usize = 0;
    while i < ls.len()
        invariant
            lv == ls.deep_view(),
            lv.len() == ls@.len(),
            start <= i <= ls@.len(),
            r@.len() == para_scan(lv.take(i as int)).0.len(),
            forall|j: int|
                0 <= j < r@.len() ==> {
                    &&& (#[trigger] r@[j]).0 < r@[j].1 <= i
                    &&& lv.subrange(r@[j].0 as int, r@[j].1 as int) == para_scan(
                        lv.take(i as int),
                    ).0[j]
                },
            para_scan(lv.take(i as int)).1 == lv.subrange(start as int, i as int),
            para_scan(lv.take(i as int)).2 == fenced,
        decreases ls.len() - i,
    {
        proof {
            lemma_line_view(ls, i as int);
            assert(lv.take(i + 1).drop_last() =~= lv.take(i as int));
        }
        let ghost prev = para_scan(lv.take(i as int));
        let line = &ls[i];
        if blank(line) && !fenced {
            if start < i {
                r.push((start, i));
            }
            start = i + 1;
            assert(lv.subrange(start as int, i + 1) =~= Seq::<Seq<char>>::empty());
        } else {
            if fence(line) {
                fenced = !fenced;
            }
            assert(lv.subrange(start as int, i + 1) =~= prev.1.push(lv[i as int]));
        }
        i += 1;
    }
    assert(lv.take(i as int) =~= lv);
    if start < i {
        r.push((start, i));
    }
    r
}


/// Length of `l[..j]` once its trailing spaces are dropped.
pub open spec fn trail(l: Seq<char>, j: int) -> int
    decreases j,
{
    if 0 < j <= l.len() && is_space(l[j - 1]) {
        trail(l, j - 1)
    } else {
        j
    }
}

/// `l` without leading and trailing spaces.
pub open spec fn trim(l: Seq<char>) -> Seq<char> {
    let t = l.skip(indent(l));
    t.take(trail(t, t.len() as int))
}

/// What a note line says: the text after its `|`, trimmed.
pub open spec fn note_text(l: Seq<char>) -> Seq<char> {
    trim(l.skip(indent(l) + 1))
}

/// The notes among `ls`, in order.
pub open spec fn note_lines(ls: Seq<Seq<char>>) -> Seq<Seq<char>>
    decreases ls.len(),
{
    if ls.len() == 0 {
        Seq::empty()
    } else if is_marked(ls.last(), '|') {
        note_lines(ls.drop_last()).push(note_text(ls.last()))
    } else {
        note_lines(ls.drop_last())
    }
}

/// No notes, or the notes joined with newlines.
pub open spec fn joined_notes(ns: Seq<Seq<char>>) -> Option<Seq<char>> {
    if ns.len() == 0 {
        None
    } else {
        Some(join_lines(ns))
    }
}

fn trimmed(l: &Vec<char>) -> (r: Vec<char>)
    ensures
        r@ == trim(l@),
{
    let k = indent_of(l);
    let t = copy_range(l, k, l.len());
    assert(t@ =~= l@.skip(k as int));
    let mut j: usize = t.len();
    while j > 0 && space(t[j - 1])
        invariant
            0 <= j <= t@.len(),
            trail(t@, j as int) == trail(t@, t@.len() as int),
        decreases j,
    {
        j -= 1;
    }
    copy_range(&t, 0, j)
}

/// The note carried by a line marked with `|`.
pub fn note_of(l: &Vec<char>) -> (r: Vec<char>)
    requires
        is_marked(l@, '|'),
    ensures
        r@ == note_text(l@),
{
    let k = indent_of(l);
    let n = l.len();
    let rest = copy_range(l, k + 1, n);
    assert(rest@ =~= l@.skip(k + 1));
    trimmed(&rest)
}

/// The notes among the lines `ls[a..b]`.
fn collect_notes(ls: &Vec<Vec<char>>, a: usize, b: usize) -> (r: Vec<Vec<char>>)
    requires
        a <= b <= ls@.len(),
    ensures
        r.deep_view() == note_lines(ls.deep_view().subrange(a as int, b as int)),
{
    let ghost lv = ls.deep_view();
    let mut r: Vec<Vec<char>> = Vec::new();
    let mut i: usize = a;
    while i < b
        invariant
            lv == ls.deep_view(),
            a <= i <= b <= ls@.len(),
            r.deep_view() == note_lines(lv.subrange(a as int, i as int)),
        decreases b - i,
    {
        proof {
            lemma_line_view(ls, i as int);
            assert(lv.subrange(a as int, i + 1).drop_last() =~= lv.subrange(a as int, i as int));
        }
        let ghost before = r.deep_view();
        if marked(&ls[i], '|') {
            let n = note_of(&ls[i]);
            assert(n.deep_view() =~= n@);
            r.push(n);
            assert(r.deep_view() =~= before.push(n@));
        }
        i += 1;
    }
    r
}

fn joined(ns: &Vec<Vec<char>>) -> (r: Option<String>)
    ensures
        r matches Some(t) ==> joined_notes(ns.deep_view()) == Some(t@),
        r is None ==> joined_notes(ns.deep_view()) is None,
{
    if ns.len() == 0 {
        None
    } else {
        Some(join(ns))
    }
}


/// The content lines of a text paragraph: notes left out, a `~` line read as
/// an empty line, any other line kept as it is.
pub open spec fn text_body(ls: Seq<Seq<char>>) -> Seq<Seq<char>>
    decreases ls.len(),
{
    if ls.len() == 0 {
        Seq::empty()
    } else if is_marked(ls.last(), '|') {
        text_body(ls.drop_last())
    } else if is_marked(ls.last(), '~') {
        text_body(ls.drop_last()).push(Seq::empty())
    } else {
        text_body(ls.drop_last()).push(ls.last())
    }
}

/// The caption lines under an image: notes and blank lines left out, a `~`
/// line read as an empty line, any other line kept as it is.
pub open spec fn caption_body(ls: Seq<Seq<char>>) -> Seq<Seq<char>>
    decreases ls.len(),
{
    if ls.len() == 0 {
        Seq::empty()
    } else if is_marked(ls.last(), '|') || is_blank(ls.last()) {
        caption_body(ls.drop_last())
    } else if is_marked(ls.last(), '~') {
        caption_body(ls.drop_last()).push(Seq::empty())
    } else {
        caption_body(ls.drop_last()).push(ls.last())
    }
}

/// Index of the first fence line of `p` at or after `i`, or `p.len()`.
pub open spec fn closing(p: Seq<Seq<char>>, i: int) -> int
    decreases p.len() - i,
{
    if 0 <= i < p.len() && !is_fence(p[i]) {
        closing(p, i + 1)
    } else {
        i
    }
}

/// What a slide shows, over plain sequences of characters.
pub enum SlideShape {
    Empty,
    Text(Seq<char>),
    Image(Seq<char>),
    TextImage(Seq<char>, Seq<char>),
    Code(Seq<char>),
}

/// The slide that a paragraph `p` (its lines, at least one) makes, with its
/// notes, or `None` where the paragraph is a comment that makes no slide.
pub open spec fn classify(p: Seq<Seq<char>>) -> Option<(SlideShape, Option<Seq<char>>)> {
    let first = p[0];
    let rest = p.drop_first();
    if first.len() > 0 && first[0] == '\\' {
        Some((SlideShape::Empty, joined_notes(note_lines(rest))))
    } else if first.len() > 0 && first[0] == '@' {
        let path = trim(first.drop_first());
        let body = caption_body(rest);
        let notes = joined_notes(note_lines(rest));
        if body.len() == 0 {
            Some((SlideShape::Image(path), notes))
        } else {
            Some((SlideShape::TextImage(join_lines(body), path), notes))
        }
    } else if is_fence(first) {
        let close = closing(p, 1);
        let body = p.subrange(1, close);
        let notes = if close < p.len() {
            note_lines(p.subrange(close + 1, p.len() as int))
        } else {
            Seq::empty()
        };
        if body.len() == 0 && notes.len() > 0 {
            None
        } else {
            Some((SlideShape::Code(join_lines(body)), joined_notes(notes)))
        }
    } else {
        let body = text_body(p);
        let notes = note_lines(p);
        if body.len() == 0 && notes.len() > 0 {
            None
        } else {
            Some((SlideShape::Text(join_lines(body)), joined_notes(notes)))
        }
    }
}

/// The slides, with their notes, that a list of paragraphs makes.
pub open spec fn slides_of(ps: Seq<Seq<Seq<char>>>) -> Seq<(SlideShape, Option<Seq<char>>)>
    decreases ps.len(),
{
    if ps.len() == 0 {
        Seq::empty()
    } else {
        match classify(ps.last()) {
            Some(x) => slides_of(ps.drop_last()).push(x),
            None => slides_of(ps.drop_last()),
        }
    }
}

/// The slides, with their notes, of the document `s`.
pub open spec fn deck_of(s: Seq<char>) -> Seq<(SlideShape, Option<Seq<char>>)> {
    slides_of(paragraphs(lines_of(s)))
}

fn text_body_lines(ls: &Vec<Vec<char>>, a: usize, b: usize) -> (r: Vec<Vec<char>>)
    requires
        a <= b <= ls@.len(),
    ensures
        r.deep_view() == text_body(ls.deep_view().subrange(a as int, b as int)),
{
    let ghost lv = ls.deep_view();
    let mut r: Vec<Vec<char>> = Vec::new();
    let mut i: usize = a;
    while i < b
        invariant
            lv == ls.deep_view(),
            a <= i <= b <= ls@.len(),
            r.deep_view() == text_body(lv.subrange(a as int, i as int)),
        decreases b - i,
    {
        proof {
            lemma_line_view(ls, i as int);
            assert(lv.subrange(a as int, i + 1).drop_last() =~= lv.subrange(a as int, i as int));
        }
        let ghost before = r.deep_view();
        if marked(&ls[i], '|') {
        } else if marked(&ls[i], '~') {
            let e: Vec<char> = Vec::new();
            assert(e.deep_view() =~= Seq::<char>::empty());
            r.push(e);
            assert(r.deep_view() =~= before.push(Seq::empty()));
        } else {
            let l = ls[i].clone();
            assert(l.deep_view() =~= ls@[i as int]@);
            r.push(l);
            assert(r.deep_view() =~= before.push(lv[i as int]));
        }
        i += 1;
    }
    r
}

fn caption_lines(ls: &Vec<Vec<char>>, a: usize, b: usize) -> (r: Vec<Vec<char>>)
    requires
        a <= b <= ls@.len(),
    ensures
        r.deep_view() == caption_body(ls.deep_view().subrange(a as int, b as int)),
{
    let ghost lv = ls.deep_view();
    let mut r: Vec<Vec<char>> = Vec::new();
    let mut i: usize = a;
    while i < b
        invariant
            lv == ls.deep_view(),
            a <= i <= b <= ls@.len(),
            r.deep_view() == caption_body(lv.subrange(a as int, i as int)),
        decreases b - i,
    {
        proof {
            lemma_line_view(ls, i as int);
            assert(lv.subrange(a as int, i + 1).drop_last() =~= lv.subrange(a as int, i as int));
        }
        let ghost before = r.deep_view();
        if marked(&ls[i], '|') || blank(&ls[i]) {
        } else if marked(&ls[i], '~') {
            let e: Vec<char> = Vec::new();
            assert(e.deep_view() =~= Seq::<char>::empty());
            r.push(e);
            assert(r.deep_view() =~= before.push(Seq::empty()));
        } else {
            let l = ls[i].clone();
            assert(l.deep_view() =~= ls@[i as int]@);
            r.push(l);
            assert(r.deep_view() =~= before.push(lv[i as int]));
        }
        i += 1;
    }
    r
}

fn copy_lines(ls: &Vec<Vec<char>>, a: usize, b: usize) -> (r: Vec<Vec<char>>)
    requires
        a <= b <= ls@.len(),
    ensures
        r.deep_view() == ls.deep_view().subrange(a as int, b as int),
{
    let ghost lv = ls.deep_view();
    let mut r: Vec<Vec<char>> = Vec::new();
    let mut i: usize = a;
    while i < b
        invariant
            lv == ls.deep_view(),
            a <= i <= b <= ls@.len(),
            r.deep_view() == lv.subrange(a as int, i as int),
        decreases b - i,
    {
        proof {
            lemma_line_view(ls, i as int);
        }
        let ghost before = r.deep_view();
        let l = ls[i].clone();
        assert(l.deep_view() =~= ls@[i as int]@);
        r.push(l);
        assert(r.deep_view() =~= before.push(lv[i as int]));
        assert(lv.subrange(a as int, i + 1) =~= lv.subrange(a as int, i as int).push(lv[i as int]));
        i += 1;
    }
    r
}


/// What a slide shows.
pub enum SlideType {
    Empty,
    Text { body: String },
    Image { path: String },
    TextImage { body: String, path: String },
    Code { body: String },
}

impl View for SlideType {
    type V = SlideShape;

    open spec fn view(&self) -> SlideShape {
        match self {
            SlideType::Empty => SlideShape::Empty,
            SlideType::Text { body } => SlideShape::Text(body@),
            SlideType::Image { path } => SlideShape::Image(path@),
            SlideType::TextImage { body, path } => SlideShape::TextImage(body@, path@),
            SlideType::Code { body } => SlideShape::Code(body@),
        }
    }
}

/// One slide of a deck.
pub struct Slide {
    /// Position in the deck, counted from 1.
    pub index: usize,
    pub slide_type: SlideType,
    /// Presenter notes, shown on the console only.
    pub notes: Option<String>,
    /// Font size for the slide's text, once fitted.
    pub font_size: Option<u16>,
    /// Scale of the slide's image, once fitted.
    pub image_scale: Option<Scale>,
}

fn classify_paragraph(ls: &Vec<Vec<char>>, a: usize, b: usize) -> (r: Option<(SlideType, Option<String>)>)
    requires
        a < b <= ls@.len(),
    ensures
        match classify(ls.deep_view().subrange(a as int, b as int)) {
            None => r is None,
            Some((shape, notes)) => r matches Some((t, n)) && t@ == shape && opt_view(n) == notes,
        },
{
    let ghost lv = ls.deep_view();
    let ghost p = lv.subrange(a as int, b as int);
    proof {
        lemma_line_view(ls, a as int);
        assert(p.drop_first() =~= lv.subrange(a + 1, b as int));
    }
    let first = &ls[a];
    let n = first.len();
    if n > 0 && first[0] == '\\' {
        let notes = collect_notes(ls, a + 1, b);
        let joined_notes = joined(&notes);
        Some((SlideType::Empty, joined_notes))
    } else if n > 0 && first[0] == '@' {
        let after = copy_range(first, 1, n);
        assert(after@ =~= first@.drop_first());
        let path_chars = trimmed(&after);
        let path = crate::text::string_of(&path_chars, 0, path_chars.len());
        assert(path_chars@.subrange(0, path_chars@.len() as int) =~= path_chars@);
        let body = caption_lines(ls, a + 1, b);
        let notes = joined(&collect_notes(ls, a + 1, b));
        if body.len() == 0 {
            Some((SlideType::Image { path }, notes))
        } else {
            Some((SlideType::TextImage { body: join(&body), path }, notes))
        }
    } else if fence(first) {
        let mut close: usize = a + 1;
        while close < b && !fence(&ls[close])
            invariant
                lv == ls.deep_view(),
                p == lv.subrange(a as int, b as int),
                a < close <= b <= ls@.len(),
                closing(p, close - a) == closing(p, 1),
            decreases b - close,
        {
            proof {
                lemma_line_view(ls, close as int);
            }
            close += 1;
        }
        proof {
            if close < b {
                lemma_line_view(ls, close as int);
            }
        }
        assert(closing(p, close - a) == close - a);
        let body = copy_lines(ls, a + 1, close);
        assert(lv.subrange(a + 1, close as int) =~= p.subrange(1, close - a));
        let notes = if close < b {
            assert(lv.subrange(close + 1, b as int) =~= p.subrange(close - a + 1, p.len() as int));
            collect_notes(ls, close + 1, b)
        } else {
            let e: Vec<Vec<char>> = Vec::new();
            assert(e.deep_view() =~= Seq::<Seq<char>>::empty());
            e
        };
        if body.len() == 0 && notes.len() > 0 {
            None
        } else {
            Some((SlideType::Code { body: join(&body) }, joined(&notes)))
        }
    } else {
        let body = text_body_lines(ls, a, b);
        let notes = collect_notes(ls, a, b);
        if body.len() == 0 && notes.len() > 0 {
            None
        } else {
            Some((SlideType::Text { body: join(&body) }, joined(&notes)))
        }
    }
}


/// The slide at position `i` of a parsed deck matches `d`, the `i`-th slide
/// of the document's model, and carries no fitted sizes yet.
pub open spec fn parsed_as(slide: Slide, i: int, d: (SlideShape, Option<Seq<char>>)) -> bool {
    &&& slide.index == i + 1
    &&& slide.slide_type@ == d.0
    &&& opt_view(slide.notes) == d.1
    &&& slide.font_size is None
    &&& slide.image_scale is None
}

/// `d` is what reading the document `s` gives: its slides as `deck_of` has
/// them, numbered from 1, with no fitted sizes yet.
pub open spec fn is_parse_of(d: Seq<Slide>, s: Seq<char>) -> bool {
    &&& d.len() == deck_of(s).len()
    &&& forall|i: int| 0 <= i < d.len() ==> parsed_as(#[trigger] d[i], i, deck_of(s)[i])
}

/// Reads a deck document into its slides, in order, numbered from 1.
pub fn parse(source: &str) -> (r: Vec<Slide>)
    ensures
        is_parse_of(r@, source@),
        forall|i: int| 0 <= i < r@.len() ==> (#[trigger] r@[i]).index == i + 1,
{
    let ls = split_lines(source);
    let ghost lv = ls.deep_view();
    let ghost ps = paragraphs(lv);
    let ranges = split_paragraphs(&ls);
    let mut r: Vec<Slide> = Vec::new();
    let mut j: usize = 0;
    while j < ranges.len()
        invariant
            lv == ls.deep_view(),
            lv == lines_of(source@),
            ps == paragraphs(lv),
            ranges@.len() == ps.len(),
            forall|k: int|
                0 <= k < ranges@.len() ==> {
                    &&& (#[trigger] ranges@[k]).0 < ranges@[k].1 <= ls@.len()
                    &&& lv.subrange(ranges@[k].0 as int, ranges@[k].1 as int) == ps[k]
                },
            0 <= j <= ranges@.len(),
            r@.len() <= j,
            r@.len() == slides_of(ps.take(j as int)).len(),
            forall|i: int|
                0 <= i < r@.len() ==> parsed_as(#[trigger] r@[i], i, slides_of(ps.take(j as int))[i]),
        decreases ranges.len() - j,
    {
        let (a, b) = ranges[j];
        assert(ps.take(j + 1).drop_last() =~= ps.take(j as int));
        let ghost before = slides_of(ps.take(j as int));
        match classify_paragraph(&ls, a, b) {
            Some((slide_type, notes)) => {
                let index = r.len() + 1;
                r.push(Slide { index, slide_type, notes, font_size: None, image_scale: None });
            },
            None => {},
        }
        j += 1;
    }
    assert(ps.take(j as int) =~= ps);
    r
}


/// The text a slide shows, if it shows any.
pub open spec fn shape_body(s: SlideShape) -> Option<Seq<char>> {
    match s {
        SlideShape::Text(b) => Some(b),
        SlideShape::TextImage(b, _) => Some(b),
        SlideShape::Code(b) => Some(b),
        _ => None,
    }
}

/// The path of the image a slide shows, if it shows one.
pub open spec fn shape_image(s: SlideShape) -> Option<Seq<char>> {
    match s {
        SlideShape::Image(p) => Some(p),
        SlideShape::TextImage(_, p) => Some(p),
        _ => None,
    }
}

impl SlideType {
    /// The text the slide shows, if any.
    pub fn body(&self) -> (r: Option<String>)
        ensures
            opt_view(r) == shape_body(self@),
    {
        match self {
            SlideType::Text { body } => Some(body.clone()),
            SlideType::TextImage { body, .. } => Some(body.clone()),
            SlideType::Code { body } => Some(body.clone()),
            _ => None,
        }
    }

    /// The path of the image the slide shows, if any.
    pub fn image_path(&self) -> (r: Option<String>)
        ensures
            opt_view(r) == shape_image(self@),
    {
        match self {
            SlideType::Image { path } => Some(path.clone()),
            SlideType::TextImage { path, .. } => Some(path.clone()),
            _ => None,
        }
    }
}

impl Slide {
    /// A slide with its sizes fitted to `target`: the font size of its text,
    /// where it has text, by `find_max_font_size` with `measure` measuring
    /// that text; the scale of its image, where it has one and `image` gives
    /// the image's size, by `scale_to_fit`.
    pub fn new<F: Fn(u16) -> Size>(
        index: usize,
        slide_type: SlideType,
        notes: Option<String>,
        measure: &F,
        image: Option<Size>,
        target: Size,
    ) -> (r: Slide)
        requires
            measurer(*measure),
            image matches Some(sz) ==> sz.width > 0 && sz.height > 0,
        ensures
            r.index == index,
            r.slide_type@ == slide_type@,
            opt_view(r.notes) == opt_view(notes),
            r.font_size == match shape_body(slide_type@) {
                Some(b) => Some(fit_size(overflows(*measure, target), b.len()) as u16),
                None => None,
            },
            r.image_scale == match (shape_image(slide_type@), image) {
                (Some(_), Some(sz)) => Some(fit_scale(target, sz)),
                _ => None,
            },
    {
        let font_size = match &slide_type {
            SlideType::Text { body } => Some(find_max_font_size(body.as_str(), measure, target)),
            SlideType::TextImage { body, .. } => Some(find_max_font_size(body.as_str(), measure, target)),
            SlideType::Code { body } => Some(find_max_font_size(body.as_str(), measure, target)),
            _ => None,
        };
        let image_scale = match (&slide_type, image) {
            (SlideType::Image { .. }, Some(sz)) => Some(scale_to_fit(target, sz)),
            (SlideType::TextImage { .. }, Some(sz)) => Some(scale_to_fit(target, sz)),
            _ => None,
        };
        Slide { index, slide_type, notes, font_size, image_scale }
    }
}


/// The line that stands for a slide's content on the console.
pub open spec fn console_main(s: SlideShape) -> Seq<char> {
    match s {
        SlideShape::Empty => "(empty slide)"@,
        SlideShape::Image(_) => "(image)"@,
        SlideShape::Text(b) => b,
        SlideShape::TextImage(b, _) => b,
        SlideShape::Code(b) => b,
    }
}

/// What the console shows of a slide: its content between two rules, with
/// its notes under a thinner rule where it has any.
pub open spec fn console_text(s: SlideShape, notes: Option<Seq<char>>) -> Seq<Seq<char>> {
    let head = seq!["========"@, console_main(s)];
    let mid = match notes {
        Some(n) => seq!["--------"@, n],
        None => Seq::empty(),
    };
    head + mid + seq!["========"@]
}

impl Slide {
    /// The lines the console shows of this slide, as `console_text` has them.
    pub fn console_lines(&self) -> (r: Vec<String>)
        ensures
            r.deep_view() == console_text(self.slide_type@, opt_view(self.notes)),
    {
        let mut r: Vec<String> = Vec::new();
        r.push(String::from_str("========"));
        let main = match &self.slide_type {
            SlideType::Empty => String::from_str("(empty slide)"),
            SlideType::Image { .. } => String::from_str("(image)"),
            SlideType::Text { body } => body.clone(),
            SlideType::TextImage { body, .. } => body.clone(),
            SlideType::Code { body } => body.clone(),
        };
        r.push(main);
        match &self.notes {
            Some(n) => {
                r.push(String::from_str("--------"));
                r.push(n.clone());
            },
            None => {},
        }
        r.push(String::from_str("========"));
        assert(r.deep_view() =~= console_text(self.slide_type@, opt_view(self.notes)));
        r
    }
}

} // verus!
