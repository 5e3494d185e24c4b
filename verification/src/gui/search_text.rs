//! Showing where a search query occurs in a text.

use vstd::prelude::*;
use vstd::utf8::{char_is_scalar, encode_scalar, encode_utf8};

use crate::markup::{html_selected, node_views, select, NodeView};
use crate::text::{
    chars_of, copy_range, find_from, join, join_parts, lowercase, lowered, occurs_at, split_words,
    string_of, text_opt, trim, views, words,
};

verus! {

// ---- previews -----------------------------------------------------------------

/// Where `n` first occurs in `h`, or the front where it does not.
pub open spec fn first_place(h: Seq<char>, n: Seq<char>, from: int) -> int
    decreases h.len() + 1 - from,
{
    if from + n.len() > h.len() {
        0
    } else if occurs_at(h, n, from) {
        from
    } else {
        first_place(h, n, from + 1)
    }
}

/// The text with single spaces between its words.
pub open spec fn normalized(text: Seq<char>) -> Seq<char> {
    join(words(text), " "@)
}

/// The text that a preview is taken from: what is visible, or the source where
/// nothing is.
pub open spec fn preview_text(visible: Seq<char>, source: Seq<char>) -> Seq<char> {
    if trim(visible).len() == 0 {
        normalized(source)
    } else {
        normalized(visible)
    }
}

/// Where a preview begins: a third of its length before the match.
pub open spec fn preview_start(at: int, max_chars: int) -> int {
    if at >= max_chars / 3 {
        at - max_chars / 3
    } else {
        0
    }
}

/// The part of the text round a match, with dots where something is left out.
pub open spec fn preview_around(text: Seq<char>, at: int, max_chars: int) -> Seq<char> {
    let start = preview_start(at, max_chars);
    let end = if start + max_chars <= text.len() {
        start + max_chars
    } else {
        text.len() as int
    };
    (if start > 0 {
        seq!['…']
    } else {
        Seq::empty()
    }) + text.subrange(start, end) + (if end < text.len() {
        seq!['…']
    } else {
        Seq::empty()
    })
}

/// The preview of a text whose match begins at `at`.
pub fn cut_preview(text: &[char], at: usize, max_chars: usize) -> (r: String)
    requires
        preview_start(at as int, max_chars as int) <= text@.len(),
    ensures
        r@ == preview_around(text@, at as int, max_chars as int),
{
    let leading: usize = max_chars / 3;
    let start: usize = if at >= leading { at - leading } else { 0 };
    let end: usize = if max_chars >= text.len() - start {
        text.len()
    } else {
        start + max_chars
    };
    let mut r: Vec<char> = Vec::new();
    if start > 0 {
        r.push('…');
    }
    let inner = copy_range(text, start, end);
    r.extend_from_slice(&inner);
    if end < text.len() {
        r.push('…');
    }
    proof {
        assert(r@ =~= preview_around(text@, at as int, max_chars as int));
    }
    string_of(&r)
}

/// The first word of a query.
pub open spec fn first_word(query: Seq<char>) -> Seq<char> {
    if words(query).len() > 0 {
        words(query)[0]
    } else {
        Seq::empty()
    }
}

/// Where the preview's match begins, in the lowered text.
pub open spec fn match_place(text: Seq<char>, query: Seq<char>) -> int {
    let wanted = lowered(first_word(query));
    if wanted.len() == 0 {
        0
    } else {
        first_place(lowered(text), wanted, 0)
    }
}

proof fn lemma_first_place_hit(h: Seq<char>, n: Seq<char>, from: int, at: int)
    requires
        0 <= from <= at,
        at + n.len() <= h.len(),
        occurs_at(h, n, at),
        forall|i: int| from <= i < at ==> !occurs_at(h, n, i),
    ensures
        first_place(h, n, from) == at,
    decreases at - from,
{
    if from < at {
        assert(!occurs_at(h, n, from));
        lemma_first_place_hit(h, n, from + 1, at);
    }
}

proof fn lemma_first_place_miss(h: Seq<char>, n: Seq<char>, from: int)
    requires
        0 <= from,
        forall|i: int| from <= i ==> !occurs_at(h, n, i),
    ensures
        first_place(h, n, from) == 0,
    decreases h.len() + 1 - from,
{
    if from + n.len() <= h.len() {
        assert(!occurs_at(h, n, from));
        lemma_first_place_miss(h, n, from + 1);
    }
}

fn find_place(h: &[char], n: &[char]) -> (r: usize)
    ensures
        r == first_place(h@, n@, 0),
{
    match find_from(h, n, 0) {
        Some(at) => {
            proof {
                lemma_first_place_hit(h@, n@, 0, at as int);
            }
            at
        },
        None => {
            proof {
                lemma_first_place_miss(h@, n@, 0);
            }
            0
        },
    }
}

pub open spec fn nothing_visible() -> Seq<char> {
    "（无可显示的文字）"@
}

/// A preview of a text, if there is one.
pub open spec fn previewed(
    visible: Seq<char>,
    source: Seq<char>,
    query: Seq<char>,
    max_chars: int,
) -> Option<Seq<char>> {
    let text = preview_text(visible, source);
    if text.len() == 0 {
        Some(nothing_visible())
    } else if preview_start(match_place(text, query), max_chars) <= text.len() {
        Some(preview_around(text, match_place(text, query), max_chars))
    } else {
        None
    }
}

/// A preview of a text, given what is visible of its source. Lowering can make
/// a text longer; where a match then begins behind the end of the text itself,
/// there is no preview.
pub fn preview_of(visible: &str, source: &str, query: &str, max_chars: usize) -> (r: Option<String>)
    ensures
        text_opt(r) == previewed(visible@, source@, query@, max_chars as int),
{
    let basis: &str = if crate::text::is_blank(visible) { source } else { visible };
    let text = join_parts(&split_words(&chars_of(basis)), " ");
    if text.len() == 0 {
        return Some("（无可显示的文字）".to_owned());
    }
    let query_words = split_words(&chars_of(query));
    let first: Vec<char> = if query_words.len() > 0 {
        proof {
            assert(views(query_words@)[0] == query_words@[0]@);
        }
        copy_range(&query_words[0], 0, query_words[0].len())
    } else {
        Vec::new()
    };
    proof {
        assert(first@ =~= first_word(query@));
    }
    let wanted = chars_of(&lowercase(&string_of(&first)));
    let at: usize = if wanted.len() == 0 {
        0
    } else {
        find_place(&chars_of(&lowercase(&string_of(&text))), &wanted)
    };
    let leading: usize = max_chars / 3;
    let start: usize = if at >= leading { at - leading } else { 0 };
    if start > text.len() {
        return None;
    }
    Some(cut_preview(&text, at, max_chars))
}

/// What is visible of a piece of HTML: the text of its body.
pub open spec fn body_text(bodies: Seq<NodeView>) -> Seq<char> {
    if bodies.len() > 0 {
        bodies[0].text
    } else {
        Seq::empty()
    }
}

pub open spec fn hit_preview(source: Seq<char>, query: Seq<char>, max_chars: int) -> Option<
    Seq<char>,
> {
    previewed(body_text(html_selected(source, "body"@)), source, query, max_chars)
}

/// A preview of a search hit.
pub fn search_preview(source: &str, query: &str, max_chars: usize) -> (r: Option<String>)
    ensures
        text_opt(r) == hit_preview(source@, query@, max_chars as int),
{
    let bodies = select(source, "body");
    let visible: String = if bodies.len() > 0 {
        proof {
            assert(node_views(bodies@)[0] == bodies@[0]@);
        }
        bodies[0].text.clone()
    } else {
        String::new()
    };
    preview_of(&visible, source, query, max_chars)
}

// ---- highlights ---------------------------------------------------------------

/// A character with its case folded away.
pub uninterp spec fn lowered_char(c: char) -> Seq<char>;

/// `char::to_lowercase`: a function of the character alone.
#[verifier::external_body]
fn lower_char(c: char) -> (r: String)
    ensures
        r@ == lowered_char(c),
{
    c.to_lowercase().collect()
}

/// The characters with their case folded away, each for itself.
pub open spec fn folded(s: Seq<char>) -> Seq<Seq<char>> {
    s.map_values(|c: char| lowered_char(c))
}

fn fold_case(s: &[char]) -> (r: Vec<Vec<char>>)
    ensures
        views(r@) == folded(s@),
{
    let mut r: Vec<Vec<char>> = Vec::new();
    let mut i: usize = 0;
    while i < s.len()
        invariant
            i <= s.len(),
            r@.len() == i,
            forall|k: int| 0 <= k < i ==> (#[trigger] r@[k])@ == lowered_char(s@[k]),
        decreases s.len() - i,
    {
        r.push(chars_of(&lower_char(s[i])));
        i += 1;
    }
    proof {
        assert(views(r@) =~= folded(s@));
    }
    r
}

/// `term` stands at `at`.
pub open spec fn stands_at(text: Seq<Seq<char>>, term: Seq<Seq<char>>, at: int) -> bool {
    0 <= at && at + term.len() <= text.len() && text.subrange(at, at + term.len()) == term
}

/// Position `p` belongs to an occurrence of `term`, when occurrences are
/// sought from `at` on, one behind the other.
pub open spec fn struck(text: Seq<Seq<char>>, term: Seq<Seq<char>>, at: int, p: int) -> bool
    decreases text.len() - at,
{
    if term.len() == 0 || at + term.len() > text.len() {
        false
    } else if stands_at(text, term, at) {
        at <= p < at + term.len() || struck(text, term, at + term.len(), p)
    } else {
        struck(text, term, at + 1, p)
    }
}

/// Position `p` belongs to an occurrence of one of the terms.
pub open spec fn struck_by_any(text: Seq<Seq<char>>, terms: Seq<Seq<char>>, p: int) -> bool {
    exists|t: int| 0 <= t < terms.len() && struck(text, folded(#[trigger] terms[t]), 0, p)
}

/// Which characters of a text a query matches.
pub open spec fn matched(text: Seq<char>, query: Seq<char>) -> Seq<bool> {
    Seq::new(text.len(), |p: int| struck_by_any(folded(text), words(query), p))
}

fn same_folded(text: &[Vec<char>], term: &[Vec<char>], at: usize) -> (r: bool)
    requires
        at + term@.len() <= text@.len(),
    ensures
        r == stands_at(views(text@), views(term@), at as int),
{
    let total: usize = text.len();
    let mut i: usize = 0;
    while i < term.len()
        invariant
            i <= term.len(),
            total == text@.len(),
            at + term@.len() <= text@.len(),
            forall|k: int| 0 <= k < i ==> views(text@)[at + k] == #[trigger] views(term@)[k],
        decreases term.len() - i,
    {
        let whole = string_of(&text[at + i]);
        let part = string_of(&term[i]);
        if !crate::text::same_text(&whole, &part) {
            proof {
                let sub = views(text@).subrange(at as int, at + term@.len());
                assert(sub[i as int] == views(text@)[at + i]);
                assert(sub[i as int] != views(term@)[i as int]);
            }
            return false;
        }
        i += 1;
    }
    proof {
        assert(views(text@).subrange(at as int, at + term@.len()) =~= views(term@));
    }
    true
}

fn mark_term(text: &[Vec<char>], term: &[Vec<char>], marks: &mut Vec<bool>)
    requires
        old(marks)@.len() == text@.len(),
    ensures
        final(marks)@.len() == text@.len(),
        forall|p: int|
            0 <= p < text@.len() ==> #[trigger] final(marks)@[p] == (old(marks)@[p] || struck(
                views(text@),
                views(term@),
                0,
                p,
            )),
{
    if term.len() == 0 {
        return ;
    }
    let ghost start = marks@;
    let ghost t = views(text@);
    let ghost w = views(term@);
    let mut at: usize = 0;
    while at <= text.len() && term.len() <= text.len() - at
        invariant
            at <= text@.len(),
            marks@.len() == text@.len(),
            start.len() == text@.len(),
            t == views(text@),
            w == views(term@),
            w.len() > 0,
            forall|p: int|
                0 <= p < text@.len() ==> (#[trigger] marks@[p] || struck(t, w, at as int, p)) == (
                start[p] || struck(t, w, 0, p)),
        decreases text.len() - at,
    {
        let ghost here = at as int;
        let ghost before = marks@;
        if same_folded(text, term, at) {
            let end: usize = at + term.len();
            let from: usize = at;
            let mut k: usize = at;
            while k < end
                invariant
                    from <= k <= end,
                    end <= text@.len(),
                    marks@.len() == text@.len(),
                    before.len() == text@.len(),
                    forall|p: int|
                        0 <= p < text@.len() ==> #[trigger] marks@[p] == (before[p] || from <= p < k),
                decreases end - k,
            {
                marks.set(k, true);
                k += 1;
            }
            at = end;
        } else {
            at += 1;
        }
        proof {
            assert forall|p: int| 0 <= p < text@.len() implies (#[trigger] marks@[p] || struck(
                t,
                w,
                at as int,
                p,
            )) == (start[p] || struck(t, w, 0, p)) by {
                assert((before[p] || struck(t, w, here, p)) == (start[p] || struck(t, w, 0, p)));
            }
        }
    }
}

/// Which characters of `text` the query matches.
pub fn mark_matches(text: &[char], query: &[char]) -> (r: Vec<bool>)
    ensures
        r@ == matched(text@, query@),
{
    let text_folded = fold_case(text);
    let terms = split_words(query);
    let mut marks: Vec<bool> = Vec::new();
    let mut i: usize = 0;
    while i < text.len()
        invariant
            i <= text.len(),
            marks@.len() == i,
            forall|p: int| 0 <= p < i ==> !#[trigger] marks@[p],
        decreases text.len() - i,
    {
        marks.push(false);
        i += 1;
    }
    let ghost t = views(text_folded@);
    let ghost all = views(terms@);
    proof {
        assert(t.len() == text_folded@.len());
        assert(folded(text@).len() == text@.len());
    }
    let mut j: usize = 0;
    while j < terms.len()
        invariant
            j <= terms.len(),
            all == views(terms@),
            t == views(text_folded@),
            t.len() == text@.len(),
            text_folded@.len() == text@.len(),
            marks@.len() == text@.len(),
            forall|p: int|
                0 <= p < text@.len() ==> #[trigger] marks@[p] == struck_by_any(
                    t,
                    all.take(j as int),
                    p,
                ),
        decreases terms.len() - j,
    {
        let ghost before = marks@;
        let term = fold_case(&terms[j]);
        mark_term(&text_folded, &term, &mut marks);
        proof {
            assert(all[j as int] == terms@[j as int]@);
            assert forall|p: int| 0 <= p < text@.len() implies #[trigger] marks@[p]
                == struck_by_any(t, all.take(j + 1), p) by {
                assert(before[p] == struck_by_any(t, all.take(j as int), p));
                let now = all.take(j + 1);
                let then = all.take(j as int);
                assert(now[j as int] == all[j as int]);
                if struck_by_any(t, then, p) {
                    let k = choose|k: int|
                        0 <= k < then.len() && struck(t, folded(#[trigger] then[k]), 0, p);
                    assert(now[k] == then[k]);
                }
                if struck_by_any(t, now, p) {
                    let k = choose|k: int|
                        0 <= k < now.len() && struck(t, folded(#[trigger] now[k]), 0, p);
                    if k < j {
                        assert(then[k] == now[k]);
                    }
                }
            }
        }
        j += 1;
    }
    proof {
        assert(all.take(all.len() as int) =~= all);
        assert(marks@ =~= matched(text@, query@));
    }
    marks
}

/// How many bytes a character takes in UTF-8.
pub open spec fn byte_len(c: char) -> nat {
    if (c as u32) < 0x80 {
        1
    } else if (c as u32) < 0x800 {
        2
    } else if (c as u32) < 0x1_0000 {
        3
    } else {
        4
    }
}

/// How many bytes a text takes in UTF-8.
pub open spec fn bytes_len(s: Seq<char>) -> nat
    decreases s.len(),
{
    if s.len() == 0 {
        0
    } else {
        bytes_len(s.drop_last()) + byte_len(s.last())
    }
}

/// Where the run of marks that begins at `i` ends.
pub open spec fn run_end(marks: Seq<bool>, i: int) -> int
    decreases marks.len() - i,
{
    if 0 <= i < marks.len() && marks[i] {
        run_end(marks, i + 1)
    } else {
        i
    }
}

pub proof fn lemma_run_end(marks: Seq<bool>, i: int)
    requires
        0 <= i <= marks.len(),
    ensures
        i <= run_end(marks, i) <= marks.len(),
        i < marks.len() && marks[i] ==> i < run_end(marks, i),
        forall|k: int| i <= k < run_end(marks, i) ==> #[trigger] marks[k],
        run_end(marks, i) < marks.len() ==> !marks[run_end(marks, i)],
    decreases marks.len() - i,
{
    if i < marks.len() && marks[i] {
        lemma_run_end(marks, i + 1);
    }
}

/// The runs of marks from `i` on.
pub open spec fn runs(marks: Seq<bool>, i: int) -> Seq<(int, int)>
    decreases marks.len() - i,
    when 0 <= i
{
    if i >= marks.len() {
        Seq::empty()
    } else if !marks[i] {
        runs(marks, i + 1)
    } else {
        proof {
            lemma_run_end(marks, i);
        }
        seq![(i, run_end(marks, i))] + runs(marks, run_end(marks, i))
    }
}

/// The runs as places in the bytes of the text.
pub open spec fn byte_ranges(text: Seq<char>, all: Seq<(int, int)>) -> Seq<(nat, nat)> {
    all.map_values(|r: (int, int)| (bytes_len(text.take(r.0)), bytes_len(text.take(r.1))))
}

/// A part of a text, by the bytes at which it begins and ends.
#[derive(Debug, Clone, Copy, PartialEq, Eq, Structural)]
pub struct ByteRange {
    pub start: usize,
    pub end: usize,
}

pub open spec fn range_views(all: Seq<ByteRange>) -> Seq<(nat, nat)> {
    all.map_values(|r: ByteRange| (r.start as nat, r.end as nat))
}

fn width(c: char) -> (r: usize)
    ensures
        r == byte_len(c),
{
    let code: u32 = c as u32;
    if code < 0x80 {
        1
    } else if code < 0x800 {
        2
    } else if code < 0x1_0000 {
        3
    } else {
        4
    }
}

proof fn lemma_bytes_monotone(s: Seq<char>, i: int)
    requires
        0 <= i < s.len(),
    ensures
        bytes_len(s.take(i + 1)) == bytes_len(s.take(i)) + byte_len(s[i]),
        bytes_len(s.take(i + 1)) <= bytes_len(s),
    decreases s.len(),
{
    assert(s.take(i + 1).drop_last() =~= s.take(i));
    if i + 1 == s.len() {
        assert(s.take(i + 1) =~= s);
    } else {
        let inner = s.drop_last();
        lemma_bytes_monotone(inner, i);
        assert(inner.take(i + 1) =~= s.take(i + 1));
    }
}

fn collect_ranges(text: &[char], marks: &[bool]) -> (r: Vec<ByteRange>)
    requires
        marks@.len() == text@.len(),
        bytes_len(text@) <= usize::MAX,
    ensures
        range_views(r@) == byte_ranges(text@, runs(marks@, 0)),
{
    let mut r: Vec<ByteRange> = Vec::new();
    let mut i: usize = 0;
    let mut offset: usize = 0;
    let ghost all = runs(marks@, 0);
    let ghost mut done: Seq<(int, int)> = Seq::empty();
    proof {
        assert(text@.take(0) =~= Seq::<char>::empty());
        assert(all =~= done + runs(marks@, 0));
    }
    while i < text.len()
        invariant
            i <= text.len(),
            marks@.len() == text@.len(),
            bytes_len(text@) <= usize::MAX,
            offset == bytes_len(text@.take(i as int)),
            all == done + runs(marks@, i as int),
            range_views(r@) =~= byte_ranges(text@, done),
        decreases text.len() - i,
    {
        if !marks[i] {
            proof {
                lemma_bytes_monotone(text@, i as int);
            }
            offset = offset + width(text[i]);
            i += 1;
        } else {
            let from: usize = i;
            let start: usize = offset;
            proof {
                lemma_run_end(marks@, from as int);
            }
            while i < text.len() && marks[i]
                invariant
                    from <= i <= text.len(),
                    marks@.len() == text@.len(),
                    bytes_len(text@) <= usize::MAX,
                    offset == bytes_len(text@.take(i as int)),
                    run_end(marks@, from as int) == run_end(marks@, i as int),
                decreases text.len() - i,
            {
                proof {
                    lemma_bytes_monotone(text@, i as int);
                }
                offset = offset + width(text[i]);
                i += 1;
            }
            let ghost known = r@;
            let range = ByteRange { start, end: offset };
            r.push(range);
            proof {
                let run = (from as int, i as int);
                assert(run_end(marks@, from as int) == i);
                assert(runs(marks@, from as int) == seq![run] + runs(marks@, i as int));
                assert(done + (seq![run] + runs(marks@, i as int)) =~= done.push(run) + runs(
                    marks@,
                    i as int,
                ));
                assert(byte_ranges(text@, done.push(run)) =~= byte_ranges(text@, done).push(
                    (start as nat, offset as nat),
                ));
                assert(range_views(r@) =~= range_views(known).push((start as nat, offset as nat)));
                done = done.push(run);
            }
        }
    }
    proof {
        assert(runs(marks@, i as int) =~= Seq::<(int, int)>::empty());
        assert(all =~= done);
    }
    r
}

proof fn lemma_bytes_from_the_front(s: Seq<char>)
    requires
        s.len() > 0,
    ensures
        bytes_len(s) == byte_len(s[0]) + bytes_len(s.drop_first()),
    decreases s.len(),
{
    if s.len() == 1 {
        assert(s.drop_last() =~= Seq::<char>::empty());
        assert(s.drop_first() =~= Seq::<char>::empty());
    } else {
        lemma_bytes_from_the_front(s.drop_last());
        assert(s.drop_last().drop_first() =~= s.drop_first().drop_last());
    }
}

/// The bytes are those of the encoded text.
proof fn lemma_bytes_are_encoded(s: Seq<char>)
    ensures
        bytes_len(s) == encode_utf8(s).len(),
    decreases s.len(),
{
    if s.len() > 0 {
        lemma_bytes_from_the_front(s);
        lemma_bytes_are_encoded(s.drop_first());
        char_is_scalar(s[0]);
        assert(encode_scalar(s[0] as u32).len() == byte_len(s[0]));
    }
}

/// The parts of `text` that the query matches.
pub fn search_match_ranges(text: &str, query: &str) -> (r: Vec<ByteRange>)
    ensures
        range_views(r@) == byte_ranges(text@, runs(matched(text@, query@), 0)),
{
    let size: usize = text.as_bytes().len();
    proof {
        lemma_bytes_are_encoded(text@);
        assert(size == bytes_len(text@));
    }
    let chars = chars_of(text);
    let marks = mark_matches(&chars, &chars_of(query));
    collect_ranges(&chars, &marks)
}

/// A part of a text, highlighted or not.
#[derive(Debug, Clone, PartialEq, Eq)]
pub struct Piece {
    pub text: String,
    pub highlighted: bool,
}

pub ghost struct PieceView {
    pub text: Seq<char>,
    pub highlighted: bool,
}

impl View for Piece {
    type V = PieceView;

    open spec fn view(&self) -> PieceView {
        PieceView { text: self.text@, highlighted: self.highlighted }
    }
}

pub open spec fn piece_views(s: Seq<Piece>) -> Seq<PieceView> {
    s.map_values(|p: Piece| p@)
}

/// The text cut where the marks change.
pub open spec fn pieces(text: Seq<char>, marks: Seq<bool>) -> Seq<PieceView>
    decreases text.len(),
{
    if text.len() == 0 {
        Seq::empty()
    } else {
        let front = pieces(text.drop_last(), marks.drop_last());
        if front.len() > 0 && front.last().highlighted == marks.last() {
            front.drop_last().push(
                PieceView {
                    text: front.last().text.push(text.last()),
                    highlighted: marks.last(),
                },
            )
        } else {
            front.push(PieceView { text: seq![text.last()], highlighted: marks.last() })
        }
    }
}

fn cut_pieces(text: &[char], marks: &[bool]) -> (r: Vec<Piece>)
    requires
        marks@.len() == text@.len(),
    ensures
        piece_views(r@) == pieces(text@, marks@),
{
    let mut done: Vec<Piece> = Vec::new();
    if text.len() == 0 {
        proof {
            assert(piece_views(done@) =~= pieces(text@, marks@));
        }
        return done;
    }
    let mut current: Vec<char> = Vec::new();
    current.push(text[0]);
    let mut flag: bool = marks[0];
    let mut i: usize = 1;
    proof {
        let one = text@.take(1);
        let mark = marks@.take(1);
        assert(one.drop_last() =~= Seq::<char>::empty());
        assert(pieces(one.drop_last(), mark.drop_last()) == Seq::<PieceView>::empty());
        assert(one.last() == text@[0] && mark.last() == marks@[0]);
        assert(current@ =~= seq![text@[0]]);
        assert(pieces(one, mark) =~= piece_views(done@).push(
            PieceView { text: current@, highlighted: flag },
        ));
    }
    while i < text.len()
        invariant
            1 <= i <= text.len(),
            marks@.len() == text@.len(),
            pieces(text@.take(i as int), marks@.take(i as int)) == piece_views(done@).push(
                PieceView { text: current@, highlighted: flag },
            ),
        decreases text.len() - i,
    {
        let ghost before = pieces(text@.take(i as int), marks@.take(i as int));
        proof {
            assert(text@.take(i + 1).drop_last() =~= text@.take(i as int));
            assert(marks@.take(i + 1).drop_last() =~= marks@.take(i as int));
            assert(text@.take(i + 1).last() == text@[i as int]);
            assert(marks@.take(i + 1).last() == marks@[i as int]);
            assert(before.drop_last() =~= piece_views(done@));
        }
        if marks[i] == flag {
            current.push(text[i]);
        } else {
            let ghost known = piece_views(done@);
            let ghost part = PieceView { text: current@, highlighted: flag };
            done.push(Piece { text: string_of(&current), highlighted: flag });
            proof {
                assert(piece_views(done@) =~= known.push(part));
            }
            current = Vec::new();
            current.push(text[i]);
            flag = marks[i];
            proof {
                assert(current@ =~= seq![text@[i as int]]);
            }
        }
        i += 1;
    }
    let ghost known = piece_views(done@);
    let ghost part = PieceView { text: current@, highlighted: flag };
    done.push(Piece { text: string_of(&current), highlighted: flag });
    proof {
        assert(piece_views(done@) =~= known.push(part));
        assert(text@.take(text@.len() as int) =~= text@);
        assert(marks@.take(marks@.len() as int) =~= marks@);
    }
    done
}

/// `text` cut into what the query matches and what it does not, as it is shown.
pub fn highlight(text: &str, query: &str) -> (r: Vec<Piece>)
    ensures
        piece_views(r@) == pieces(text@, matched(text@, query@)),
{
    let chars = chars_of(text);
    let marks = mark_matches(&chars, &chars_of(query));
    cut_pieces(&chars, &marks)
}

/// The pieces one behind the other.
pub open spec fn joined(all: Seq<PieceView>) -> Seq<char>
    decreases all.len(),
{
    if all.len() == 0 {
        Seq::empty()
    } else {
        joined(all.drop_last()) + all.last().text
    }
}

/// Highlighting loses nothing of the text and adds nothing to it. No piece is
/// empty, and highlighted pieces take turns with plain ones.
pub proof fn highlighting_keeps_the_text(text: Seq<char>, marks: Seq<bool>)
    requires
        marks.len() == text.len(),
    ensures
        joined(pieces(text, marks)) == text,
        forall|k: int|
            0 <= k < pieces(text, marks).len() ==> (#[trigger] pieces(text, marks)[k]).text.len()
                > 0,
        forall|k: int|
            0 < k < pieces(text, marks).len() ==> (#[trigger] pieces(text, marks)[k]).highlighted
                != pieces(text, marks)[k - 1].highlighted,
    decreases text.len(),
{
    if text.len() > 0 {
        highlighting_keeps_the_text(text.drop_last(), marks.drop_last());
        let front = pieces(text.drop_last(), marks.drop_last());
        let all = pieces(text, marks);
        assert(text =~= text.drop_last().push(text.last()));
        if front.len() > 0 && front.last().highlighted == marks.last() {
            assert(all.drop_last() =~= front.drop_last());
            assert(joined(all) =~= joined(front.drop_last()) + front.last().text.push(text.last()));
            assert(joined(front.drop_last()) + front.last().text.push(text.last()) =~= (joined(
                front.drop_last(),
            ) + front.last().text).push(text.last()));
            assert forall|k: int| 0 < k < all.len() implies (#[trigger] all[k]).highlighted
                != all[k - 1].highlighted by {
                assert(front[k].highlighted != front[k - 1].highlighted);
            }
            assert forall|k: int| 0 <= k < all.len() implies (#[trigger] all[k]).text.len()
                > 0 by {
                if k < front.len() - 1 {
                    assert(all[k] == front[k]);
                }
            }
        } else {
            assert(all.drop_last() =~= front);
            assert(joined(all) =~= joined(front) + seq![text.last()]);
            assert(joined(front) + seq![text.last()] =~= joined(front).push(text.last()));
            assert forall|k: int| 0 < k < all.len() implies (#[trigger] all[k]).highlighted
                != all[k - 1].highlighted by {
                if k < front.len() {
                    assert(front[k].highlighted != front[k - 1].highlighted);
                }
            }
        }
    }
}

/// Position `p` lies in one of the runs.
pub open spec fn in_runs(all: Seq<(int, int)>, p: int) -> bool {
    exists|k: int| 0 <= k < all.len() && (#[trigger] all[k]).0 <= p < all[k].1
}

/// The highlighted runs hold exactly the matched characters. They are in
/// order, and an unmatched character stands between any two of them.
pub proof fn highlights_are_exactly_the_matches(marks: Seq<bool>, i: int)
    requires
        0 <= i <= marks.len(),
    ensures
        forall|p: int| i <= p < marks.len() ==> (#[trigger] marks[p] <==> in_runs(runs(marks, i), p)),
        forall|k: int|
            0 <= k < runs(marks, i).len() ==> i <= (#[trigger] runs(marks, i)[k]).0
                < runs(marks, i)[k].1 <= marks.len(),
        forall|k: int, l: int|
            0 <= k < l < runs(marks, i).len() ==> (#[trigger] runs(marks, i)[k]).1 < (
            #[trigger] runs(marks, i)[l]).0,
    decreases marks.len() - i,
{
    let all = runs(marks, i);
    if i < marks.len() && !marks[i] {
        highlights_are_exactly_the_matches(marks, i + 1);
        assert(all == runs(marks, i + 1));
        assert(!in_runs(all, i)) by {
            if in_runs(all, i) {
                let k = choose|k: int| 0 <= k < all.len() && (#[trigger] all[k]).0 <= i < all[k].1;
                assert(i + 1 <= runs(marks, i + 1)[k].0);
            }
        }
    } else if i < marks.len() {
        lemma_run_end(marks, i);
        let end = run_end(marks, i);
        let rest = runs(marks, end);
        highlights_are_exactly_the_matches(marks, end);
        assert(all =~= seq![(i, end)] + rest);
        assert forall|k: int| 0 <= k < rest.len() implies end < (#[trigger] rest[k]).0 by {
            assert(end <= rest[k].0 < rest[k].1 <= marks.len());
            if rest[k].0 == end {
                assert(in_runs(rest, end));
                assert(marks[end]);
            }
        }
        assert forall|k: int, l: int| 0 <= k < l < all.len() implies (#[trigger] all[k]).1 < (
        #[trigger] all[l]).0 by {
            assert(all[l] == rest[l - 1]);
            if k > 0 {
                assert(all[k] == rest[k - 1]);
            }
        }
        assert forall|p: int| i <= p < marks.len() implies (#[trigger] marks[p] <==> in_runs(
            all,
            p,
        )) by {
            if p < end {
                assert(all[0] == (i, end));
                assert(in_runs(all, p));
            } else {
                if marks[p] {
                    assert(in_runs(rest, p));
                    let k = choose|k: int|
                        0 <= k < rest.len() && (#[trigger] rest[k]).0 <= p < rest[k].1;
                    assert(all[k + 1] == rest[k]);
                }
                if in_runs(all, p) {
                    let k = choose|k: int|
                        0 <= k < all.len() && (#[trigger] all[k]).0 <= p < all[k].1;
                    assert(k > 0);
                    assert(rest[k - 1] == all[k]);
                    assert(in_runs(rest, p));
                }
            }
        }
        assert forall|k: int| 0 <= k < all.len() implies i <= (#[trigger] all[k]).0 < all[k].1
            <= marks.len() by {
            if k > 0 {
                assert(all[k] == rest[k - 1]);
            }
        }
    }
}

/// A preview is a part of the text that begins a third of its length before
/// the match, or at the start where the match is near it, and is as long as it
/// may be; a mark stands where text before or behind it is left out.
pub proof fn previews_show_the_match_in_context(text: Seq<char>, at: int, max_chars: int)
    requires
        0 <= at,
        0 <= max_chars,
        preview_start(at, max_chars) <= text.len(),
    ensures
        ({
            let start = if at >= max_chars / 3 {
                at - max_chars / 3
            } else {
                0
            };
            let end = if start + max_chars <= text.len() {
                start + max_chars
            } else {
                text.len() as int
            };
            let shown = preview_around(text, at, max_chars);
            let front = if start > 0 {
                1int
            } else {
                0
            };
            let back = if end < text.len() {
                1int
            } else {
                0
            };
            &&& shown.len() == front + (end - start) + back
            &&& shown.subrange(front, front + (end - start)) == text.subrange(start, end)
            &&& start > 0 ==> shown[0] == '…'
            &&& end < text.len() ==> shown.last() == '…'
            &&& at < text.len() && 3 <= max_chars ==> start <= at < end
        }),
{
    let start = preview_start(at, max_chars);
    let end = if start + max_chars <= text.len() {
        start + max_chars
    } else {
        text.len() as int
    };
    let front = if start > 0 {
        1int
    } else {
        0
    };
    let shown = preview_around(text, at, max_chars);
    assert(shown.subrange(front, front + (end - start)) =~= text.subrange(start, end));
}

/// A preview is cut from the visible text, or from the source where nothing of
/// it is visible, with single blanks between its words; where both are empty it
/// says that there is nothing to show.
pub proof fn previews_show_visible_text(
    visible: Seq<char>,
    source: Seq<char>,
    query: Seq<char>,
    max_chars: int,
)
    ensures
        ({
            let text = if trim(visible).len() == 0 {
                join(words(source), " "@)
            } else {
                join(words(visible), " "@)
            };
            let place = match_place(text, query);
            &&& text.len() == 0 ==> previewed(visible, source, query, max_chars) == Some(
                "（无可显示的文字）"@,
            )
            &&& text.len() > 0 && preview_start(place, max_chars) <= text.len() ==> previewed(
                visible,
                source,
                query,
                max_chars,
            ) == Some(preview_around(text, place, max_chars))
        }),
{
}

/// The preview is about the first place where the first word of the query
/// occurs, in letters of either case; without a word or a place, about the
/// start of the text.
pub proof fn previews_are_about_the_first_word(text: Seq<char>, query: Seq<char>, at: int)
    ensures
        words(query).len() == 0 && lowered(Seq::empty()).len() == 0 ==> match_place(text, query)
            == 0,
        words(query).len() > 0 && lowered(words(query)[0]).len() > 0 && 0 <= at && occurs_at(
            lowered(text),
            lowered(words(query)[0]),
            at,
        ) && (forall|j: int|
            0 <= j < at ==> !#[trigger] occurs_at(lowered(text), lowered(words(query)[0]), j))
            ==> match_place(text, query) == at,
        words(query).len() > 0 && (forall|j: int|
            0 <= j ==> !#[trigger] occurs_at(lowered(text), lowered(words(query)[0]), j))
            ==> match_place(text, query) == 0,
{
    if words(query).len() > 0 {
        lemma_first_place(lowered(text), lowered(words(query)[0]), 0, at);
    }
}

proof fn lemma_first_place(h: Seq<char>, n: Seq<char>, from: int, at: int)
    requires
        0 <= from,
    ensures
        from <= at && occurs_at(h, n, at) && (forall|j: int|
            from <= j < at ==> !#[trigger] occurs_at(h, n, j)) ==> first_place(h, n, from) == at,
        (forall|j: int| from <= j ==> !#[trigger] occurs_at(h, n, j)) ==> first_place(h, n, from)
            == 0,
    decreases h.len() + 1 - from,
{
    if from + n.len() <= h.len() && !occurs_at(h, n, from) {
        lemma_first_place(h, n, from + 1, at);
    }
}

/// What is marked stands in a place where one of the words of the query
/// stands, letter for letter but for the case, and the first place of each
/// word is marked from its first letter to its last.
pub proof fn marks_cover_words_of_the_query(text: Seq<char>, query: Seq<char>, p: int)
    requires
        0 <= p < text.len(),
    ensures
        matched(text, query).len() == text.len(),
        matched(text, query)[p] ==> exists|t: int, a: int|
            0 <= t < words(query).len() && a <= p < a + words(query)[t].len() && #[trigger] stands_at(
                folded(text),
                folded(words(query)[t]),
                a,
            ),
        forall|t: int, a: int|
            0 <= t < words(query).len() && a <= p < a + words(query)[t].len()
                && #[trigger] stands_at(folded(text), folded(words(query)[t]), a) && (forall|b: int|
                0 <= b < a ==> !#[trigger] stands_at(folded(text), folded(words(query)[t]), b))
                ==> matched(text, query)[p],
{
    let terms = words(query);
    let whole = folded(text);
    if matched(text, query)[p] {
        let t = choose|t: int|
            0 <= t < terms.len() && struck(whole, folded(#[trigger] terms[t]), 0, p);
        lemma_struck(whole, folded(terms[t]), 0, p);
        let a = choose|a: int|
            0 <= a && a <= p < a + folded(terms[t]).len() && #[trigger] stands_at(
                whole,
                folded(terms[t]),
                a,
            );
        assert(folded(terms[t]).len() == terms[t].len());
        assert(stands_at(folded(text), folded(words(query)[t]), a));
    }
    assert forall|t: int, a: int|
        0 <= t < words(query).len() && a <= p < a + words(query)[t].len() && #[trigger] stands_at(
            folded(text),
            folded(words(query)[t]),
            a,
        ) && (forall|b: int|
            0 <= b < a ==> !#[trigger] stands_at(folded(text), folded(words(query)[t]), b)) implies matched(
        text,
        query,
    )[p] by {
        lemma_first_struck(whole, folded(terms[t]), 0, a, p);
        assert(struck(whole, folded(terms[t]), 0, p));
    }
}

proof fn lemma_struck(text: Seq<Seq<char>>, term: Seq<Seq<char>>, at: int, p: int)
    requires
        0 <= at,
        struck(text, term, at, p),
    ensures
        exists|a: int|
            at <= a && a <= p < a + term.len() && #[trigger] stands_at(text, term, a),
    decreases text.len() - at,
{
    if stands_at(text, term, at) {
        if !(at <= p < at + term.len()) {
            lemma_struck(text, term, at + term.len(), p);
        }
    } else {
        lemma_struck(text, term, at + 1, p);
    }
}

proof fn lemma_first_struck(text: Seq<Seq<char>>, term: Seq<Seq<char>>, at: int, a: int, p: int)
    requires
        0 <= at <= a,
        a <= p < a + term.len(),
        stands_at(text, term, a),
        forall|b: int| at <= b < a ==> !#[trigger] stands_at(text, term, b),
    ensures
        struck(text, term, at, p),
    decreases text.len() - at,
{
    if at < a {
        lemma_first_struck(text, term, at + 1, a, p);
    }
}

/// What is visible of a source is the text of its body.
pub proof fn previews_show_the_body(source: Seq<char>, query: Seq<char>, max_chars: int)
    ensures
        html_selected(source, "body"@).len() > 0 ==> hit_preview(source, query, max_chars)
            == previewed(html_selected(source, "body"@)[0].text, source, query, max_chars),
        html_selected(source, "body"@).len() == 0 ==> hit_preview(source, query, max_chars)
            == previewed(Seq::empty(), source, query, max_chars),
{
}

/// Places are told in bytes: a character counts one to four, as it is encoded.
pub proof fn characters_count_their_bytes(s: Seq<char>, c: char)
    ensures
        bytes_len(Seq::empty()) == 0,
        (c as u32) < 0x80 ==> bytes_len(s.push(c)) == bytes_len(s) + 1,
        0x80 <= (c as u32) < 0x800 ==> bytes_len(s.push(c)) == bytes_len(s) + 2,
        0x800 <= (c as u32) < 0x1_0000 ==> bytes_len(s.push(c)) == bytes_len(s) + 3,
        0x1_0000 <= (c as u32) ==> bytes_len(s.push(c)) == bytes_len(s) + 4,
{
    assert(s.push(c).drop_last() =~= s);
}

/// Each run of marks is told by the bytes before it and those before its end.
pub proof fn runs_are_told_in_bytes(text: Seq<char>, all: Seq<(int, int)>, k: int)
    requires
        0 <= k < all.len(),
    ensures
        byte_ranges(text, all).len() == all.len(),
        byte_ranges(text, all)[k].0 == bytes_len(text.take(all[k].0)),
        byte_ranges(text, all)[k].1 == bytes_len(text.take(all[k].1)),
{
}

/// A word stands where each of its letters stands, in lower case, one behind
/// the other.
pub proof fn words_stand_letter_for_letter(text: Seq<char>, term: Seq<char>, at: int)
    ensures
        stands_at(folded(text), folded(term), at) <==> 0 <= at && at + term.len() <= text.len()
            && forall|k: int|
            0 <= k < term.len() ==> lowered_char(text[at + k]) == lowered_char(#[trigger] term[k]),
{
    let t = folded(text);
    let n = folded(term);
    if 0 <= at && at + term.len() <= text.len() {
        let part = t.subrange(at, at + n.len());
        if part == n {
            assert forall|k: int| 0 <= k < term.len() implies lowered_char(text[at + k])
                == lowered_char(#[trigger] term[k]) by {
                assert(part[k] == t[at + k] && n[k] == lowered_char(term[k]));
            }
        }
        if forall|k: int|
            0 <= k < term.len() ==> lowered_char(text[at + k]) == lowered_char(
                #[trigger] term[k],
            ) {
            assert forall|k: int| 0 <= k < part.len() implies part[k] == n[k] by {
                assert(lowered_char(text[at + k]) == lowered_char(term[k]));
            }
            assert(part =~= n);
        }
    }
}

} // verus!
