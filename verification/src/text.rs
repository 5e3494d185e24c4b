//! Character-level text operations shared by the whole library.

use vstd::prelude::*;

verus! {

/// Appends one character: `String::push` leaves the old text in front of it.
pub assume_specification[ String::push ](s: &mut String, c: char)
    ensures
        final(s)@ == old(s)@.push(c),
;

/// The characters with Unicode's `White_Space` property.
pub open spec fn white_space(c: char) -> bool {
    ||| '\u{9}' <= c <= '\u{d}'
    ||| c == ' '
    ||| c == '\u{85}'
    ||| c == '\u{a0}'
    ||| c == '\u{1680}'
    ||| '\u{2000}' <= c <= '\u{200a}'
    ||| c == '\u{2028}'
    ||| c == '\u{2029}'
    ||| c == '\u{202f}'
    ||| c == '\u{205f}'
    ||| c == '\u{3000}'
}

pub fn is_white_space(c: char) -> (r: bool)
    ensures
        r == white_space(c),
{
    ('\u{9}' <= c && c <= '\u{d}') || c == ' ' || c == '\u{85}' || c == '\u{a0}' || c == '\u{1680}'
        || ('\u{2000}' <= c && c <= '\u{200a}') || c == '\u{2028}' || c == '\u{2029}' || c
        == '\u{202f}' || c == '\u{205f}' || c == '\u{3000}'
}

pub open spec fn ascii_lower_char(c: char) -> char {
    if 'A' <= c <= 'Z' {
        (c as u8 + 32) as char
    } else {
        c
    }
}

pub open spec fn ascii_lower(s: Seq<char>) -> Seq<char> {
    s.map_values(|c: char| ascii_lower_char(c))
}

pub fn to_ascii_lower_char(c: char) -> (r: char)
    ensures
        r == ascii_lower_char(c),
{
    if 'A' <= c && c <= 'Z' {
        let b: u8 = c as u8;
        assert(b == c);
        (b + 32) as char
    } else {
        c
    }
}

/// The characters of `s`, in order.
pub fn chars_of(s: &str) -> (r: Vec<char>)
    ensures
        r@ == s@,
{
    let mut r: Vec<char> = Vec::new();
    broadcast use vstd::string::axiom_spec_iter;

    for c in it: s.chars()
        invariant
            it.seq() == s@,
            r@ == s@.take(it.index() as int),
    {
        proof {
            assert(s@.take(it.index() + 1) =~= s@.take(it.index() as int).push(c));
        }
        r.push(c);
    }
    proof {
        assert(s@.take(s@.len() as int) =~= s@);
    }
    r
}

/// The string made of `chars`.
pub fn string_of(chars: &[char]) -> (r: String)
    ensures
        r@ == chars@,
{
    let mut r = String::new();
    let mut i: usize = 0;
    while i < chars.len()
        invariant
            i <= chars.len(),
            r@ == chars@.take(i as int),
        decreases chars.len() - i,
    {
        proof {
            assert(chars@.take(i + 1) =~= chars@.take(i as int).push(chars@[i as int]));
        }
        r.push(chars[i]);
        i += 1;
    }
    proof {
        assert(chars@.take(chars@.len() as int) =~= chars@);
    }
    r
}

/// Whether two texts hold the same characters.
pub fn same_text(a: &str, b: &str) -> (r: bool)
    ensures
        r == (a@ == b@),
{
    a.to_owned() == b.to_owned()
}

/// Lowers every ASCII letter.
pub fn to_ascii_lower(s: &[char]) -> (r: Vec<char>)
    ensures
        r@ == ascii_lower(s@),
{
    let mut r: Vec<char> = Vec::new();
    let mut i: usize = 0;
    while i < s.len()
        invariant
            i <= s.len(),
            r@ == ascii_lower(s@.take(i as int)),
        decreases s.len() - i,
    {
        proof {
            assert(ascii_lower(s@.take(i + 1)) =~= ascii_lower(s@.take(i as int)).push(
                ascii_lower_char(s@[i as int]),
            ));
        }
        r.push(to_ascii_lower_char(s[i]));
        i += 1;
    }
    proof {
        assert(s@.take(s@.len() as int) =~= s@);
    }
    r
}

/// `n` stands in `h` at position `i`.
pub open spec fn occurs_at(h: Seq<char>, n: Seq<char>, i: int) -> bool {
    0 <= i && i + n.len() <= h.len() && h.subrange(i, i + n.len()) == n
}

pub open spec fn contains(h: Seq<char>, n: Seq<char>) -> bool {
    exists|i: int| occurs_at(h, n, i)
}

pub fn occurs_here(h: &[char], n: &[char], at: usize) -> (r: bool)
    requires
        at <= h.len(),
    ensures
        r == occurs_at(h@, n@, at as int),
{
    if n.len() > h.len() - at {
        return false;
    }
    let mut j: usize = 0;
    while j < n.len()
        invariant
            j <= n.len(),
            at + n.len() <= h.len(),
            forall|k: int| 0 <= k < j ==> h@[at + k] == n@[k],
        decreases n.len() - j,
    {
        if h[at + j] != n[j] {
            proof {
                assert(h@.subrange(at as int, at + n@.len())[j as int] == h@[at + j]);
            }
            return false;
        }
        j += 1;
    }
    proof {
        assert(h@.subrange(at as int, at + n@.len()) =~= n@);
    }
    true
}

/// The first position at or after `from` where `n` stands in `h`.
pub fn find_from(h: &[char], n: &[char], from: usize) -> (r: Option<usize>)
    requires
        from <= h.len(),
    ensures
        match r {
            Some(i) => from <= i && occurs_at(h@, n@, i as int) && (forall|j: int|
                from <= j < i ==> !occurs_at(h@, n@, j)),
            None => forall|j: int| from <= j ==> !occurs_at(h@, n@, j),
        },
{
    let mut i: usize = from;
    while i < h.len()
        invariant
            from <= i <= h.len(),
            forall|j: int| from <= j < i ==> !occurs_at(h@, n@, j),
        decreases h.len() - i,
    {
        if occurs_here(h, n, i) {
            return Some(i);
        }
        i += 1;
    }
    if occurs_here(h, n, i) {
        Some(i)
    } else {
        None
    }
}

pub fn contains_chars(h: &[char], n: &[char]) -> (r: bool)
    ensures
        r == contains(h@, n@),
{
    match find_from(h, n, 0) {
        Some(_) => true,
        None => false,
    }
}

/// Whether the literal `n` stands somewhere in `h`.
pub fn contains_text(h: &[char], n: &str) -> (r: bool)
    ensures
        r == contains(h@, n@),
{
    let needle = chars_of(n);
    contains_chars(h, &needle)
}

pub open spec fn starts_with(s: Seq<char>, prefix: Seq<char>) -> bool {
    occurs_at(s, prefix, 0)
}

pub fn starts_with_text(s: &[char], prefix: &str) -> (r: bool)
    ensures
        r == starts_with(s@, prefix@),
{
    let p = chars_of(prefix);
    occurs_here(s, &p, 0)
}

/// How many characters stand before the first white space.
pub open spec fn word_len(s: Seq<char>) -> nat
    decreases s.len(),
{
    if s.len() == 0 || white_space(s[0]) {
        0
    } else {
        1 + word_len(s.skip(1))
    }
}

/// The maximal runs of characters that are not white space, in order.
pub open spec fn words(s: Seq<char>) -> Seq<Seq<char>>
    decreases s.len(),
{
    if s.len() == 0 {
        Seq::empty()
    } else if word_len(s) == 0 {
        words(s.skip(1))
    } else {
        proof {
            lemma_word_len(s);
        }
        seq![s.take(word_len(s) as int)] + words(s.skip(word_len(s) as int))
    }
}

pub proof fn lemma_word_len(s: Seq<char>)
    ensures
        word_len(s) <= s.len(),
        forall|k: int| 0 <= k < word_len(s) ==> !white_space(#[trigger] s[k]),
        word_len(s) < s.len() ==> white_space(s[word_len(s) as int]),
    decreases s.len(),
{
    if s.len() == 0 || white_space(s[0]) {
    } else {
        lemma_word_len(s.skip(1));
        assert forall|k: int| 0 <= k < word_len(s) implies !white_space(#[trigger] s[k]) by {
            if k > 0 {
                assert(s.skip(1)[k - 1] == s[k]);
            }
        }
    }
}

pub open spec fn views(v: Seq<Vec<char>>) -> Seq<Seq<char>> {
    v.map_values(|w: Vec<char>| w@)
}

pub open spec fn texts(v: Seq<String>) -> Seq<Seq<char>> {
    v.map_values(|w: String| w@)
}

pub open spec fn text_opt(o: Option<String>) -> Option<Seq<char>> {
    match o {
        Some(t) => Some(t@),
        None => None,
    }
}

pub fn split_words(s: &[char]) -> (r: Vec<Vec<char>>)
    ensures
        views(r@) == words(s@),
{
    let mut r: Vec<Vec<char>> = Vec::new();
    let mut i: usize = 0;
    proof {
        assert(s@.skip(0) =~= s@);
    }
    while i < s.len()
        invariant
            i <= s.len(),
            words(s@) == views(r@) + words(s@.skip(i as int)),
        decreases s.len() - i,
    {
        if is_white_space(s[i]) {
            proof {
                assert(s@.skip(i as int).skip(1) =~= s@.skip(i + 1));
            }
            i += 1;
        } else {
            let mut w: Vec<char> = Vec::new();
            let mut j: usize = i;
            let ghost rest = s@.skip(i as int);
            while j < s.len() && !is_white_space(s[j])
                invariant
                    i <= j <= s.len(),
                    w@ == s@.subrange(i as int, j as int),
                    word_len(s@.skip(i as int)) == (j - i) + word_len(s@.skip(j as int)),
                decreases s.len() - j,
            {
                proof {
                    assert(s@.skip(j as int).skip(1) =~= s@.skip(j + 1));
                    assert(s@.subrange(i as int, j + 1) =~= s@.subrange(i as int, j as int).push(
                        s@[j as int],
                    ));
                }
                w.push(s[j]);
                j += 1;
            }
            proof {
                assert(word_len(rest) == j - i);
                assert(rest[0] == s@[i as int]);
                assert(rest.take(j - i) =~= w@);
                assert(rest.skip(j - i) =~= s@.skip(j as int));
                assert(views(r@.push(w)) =~= views(r@).push(w@));
                assert(views(r@) + (seq![w@] + words(s@.skip(j as int))) =~= views(r@).push(w@)
                    + words(s@.skip(j as int)));
            }
            r.push(w);
            i = j;
        }
    }
    proof {
        assert(views(r@) + words(s@.skip(i as int)) =~= views(r@));
    }
    r
}

/// How many characters stand before the first line feed.
pub open spec fn line_len(s: Seq<char>) -> nat
    decreases s.len(),
{
    if s.len() == 0 || s[0] == '\n' {
        0
    } else {
        1 + line_len(s.skip(1))
    }
}

/// A line that a line feed ended, without the carriage return before it.
pub open spec fn without_return(s: Seq<char>) -> Seq<char> {
    if s.len() > 0 && s.last() == '\r' {
        s.drop_last()
    } else {
        s
    }
}

/// The lines of a text: each ends at a line feed, alone or behind a carriage
/// return, or at the end of the text.
pub open spec fn lines(s: Seq<char>) -> Seq<Seq<char>>
    decreases s.len(),
{
    let n = line_len(s) as int;
    if s.len() == 0 {
        Seq::empty()
    } else if n < s.len() {
        seq![without_return(s.take(n))] + lines(s.skip(n + 1))
    } else {
        seq![s]
    }
}

pub proof fn lemma_line_len(s: Seq<char>)
    ensures
        line_len(s) <= s.len(),
        forall|k: int| 0 <= k < line_len(s) ==> #[trigger] s[k] != '\n',
        line_len(s) < s.len() ==> s[line_len(s) as int] == '\n',
    decreases s.len(),
{
    if s.len() == 0 || s[0] == '\n' {
    } else {
        lemma_line_len(s.skip(1));
        assert forall|k: int| 0 <= k < line_len(s) implies #[trigger] s[k] != '\n' by {
            if k > 0 {
                assert(s.skip(1)[k - 1] == s[k]);
            }
        }
    }
}

pub fn split_lines(s: &[char]) -> (r: Vec<Vec<char>>)
    ensures
        views(r@) == lines(s@),
{
    let mut r: Vec<Vec<char>> = Vec::new();
    let mut i: usize = 0;
    proof {
        assert(s@.skip(0) =~= s@);
    }
    while i < s.len()
        invariant
            i <= s.len(),
            lines(s@) == views(r@) + lines(s@.skip(i as int)),
        decreases s.len() - i,
    {
        let mut w: Vec<char> = Vec::new();
        let mut j: usize = i;
        let ghost rest = s@.skip(i as int);
        while j < s.len() && s[j] != '\n'
            invariant
                i <= j <= s.len(),
                w@ == s@.subrange(i as int, j as int),
                line_len(s@.skip(i as int)) == (j - i) + line_len(s@.skip(j as int)),
            decreases s.len() - j,
        {
            proof {
                assert(s@.skip(j as int).skip(1) =~= s@.skip(j + 1));
                assert(s@.subrange(i as int, j + 1) =~= s@.subrange(i as int, j as int).push(
                    s@[j as int],
                ));
            }
            w.push(s[j]);
            j += 1;
        }
        proof {
            assert(line_len(rest) == j - i);
        }
        if j < s.len() {
            proof {
                assert(rest.take(j - i) =~= w@);
                assert(rest.skip(j - i + 1) =~= s@.skip(j + 1));
            }
            let ghost whole = w@;
            if w.len() > 0 && w[w.len() - 1] == '\r' {
                w.pop();
                proof {
                    assert(w@ =~= whole.drop_last());
                }
            }
            proof {
                assert(w@ == without_return(whole));
                assert(views(r@.push(w)) =~= views(r@).push(w@));
                assert(views(r@) + (seq![w@] + lines(s@.skip(j + 1))) =~= views(r@).push(w@)
                    + lines(s@.skip(j + 1)));
            }
            r.push(w);
            i = j + 1;
        } else {
            proof {
                assert(rest =~= w@);
                assert(s@.skip(j as int).len() == 0);
                assert(views(r@.push(w)) =~= views(r@).push(w@));
                assert(views(r@).push(w@) + lines(s@.skip(j as int)) =~= views(r@) + seq![w@]);
            }
            r.push(w);
            i = j;
        }
    }
    proof {
        assert(views(r@) + lines(s@.skip(i as int)) =~= views(r@));
    }
    r
}

/// The parts with `sep` between each two.
pub open spec fn join(parts: Seq<Seq<char>>, sep: Seq<char>) -> Seq<char>
    decreases parts.len(),
{
    if parts.len() == 0 {
        Seq::empty()
    } else if parts.len() == 1 {
        parts[0]
    } else {
        join(parts.drop_last(), sep) + sep + parts.last()
    }
}

pub fn join_parts(parts: &[Vec<char>], sep: &str) -> (r: Vec<char>)
    ensures
        r@ == join(views(parts@), sep@),
{
    let sep_chars = chars_of(sep);
    let mut r: Vec<char> = Vec::new();
    let mut i: usize = 0;
    while i < parts.len()
        invariant
            i <= parts.len(),
            sep_chars@ == sep@,
            r@ == join(views(parts@).take(i as int), sep@),
        decreases parts.len() - i,
    {
        proof {
            assert(views(parts@).take(i + 1).drop_last() =~= views(parts@).take(i as int));
        }
        if i > 0 {
            r.extend_from_slice(sep_chars.as_slice());
        }
        r.extend_from_slice(parts[i].as_slice());
        proof {
            if i == 0 {
                assert(r@ =~= parts@[0]@);
            }
        }
        i += 1;
    }
    proof {
        assert(views(parts@).take(parts@.len() as int) =~= views(parts@));
    }
    r
}

/// The texts with `sep` between them.
pub fn join_texts(all: &[String], sep: &str) -> (r: String)
    ensures
        r@ == join(texts(all@), sep@),
{
    let mut parts: Vec<Vec<char>> = Vec::new();
    let mut i: usize = 0;
    while i < all.len()
        invariant
            i <= all.len(),
            parts@.len() == i,
            forall|k: int| 0 <= k < i ==> (#[trigger] parts@[k])@ == all@[k]@,
        decreases all.len() - i,
    {
        parts.push(chars_of(&all[i]));
        i += 1;
    }
    proof {
        assert(views(parts@) =~= texts(all@));
    }
    string_of(&join_parts(&parts, sep))
}

pub open spec fn trim_start(s: Seq<char>) -> Seq<char>
    decreases s.len(),
{
    if s.len() > 0 && white_space(s[0]) {
        trim_start(s.skip(1))
    } else {
        s
    }
}

pub open spec fn trim_end(s: Seq<char>) -> Seq<char>
    decreases s.len(),
{
    if s.len() > 0 && white_space(s.last()) {
        trim_end(s.drop_last())
    } else {
        s
    }
}

/// The text without the white space at both ends.
pub open spec fn trim(s: Seq<char>) -> Seq<char> {
    trim_end(trim_start(s))
}

pub fn trim_chars(s: &[char]) -> (r: Vec<char>)
    ensures
        r@ == trim(s@),
{
    let mut i: usize = 0;
    proof {
        assert(s@.skip(0) =~= s@);
    }
    while i < s.len() && is_white_space(s[i])
        invariant
            i <= s.len(),
            trim_start(s@) == trim_start(s@.skip(i as int)),
        decreases s.len() - i,
    {
        proof {
            assert(s@.skip(i as int).skip(1) =~= s@.skip(i + 1));
        }
        i += 1;
    }
    let ghost head = s@.skip(i as int);
    let mut j: usize = s.len();
    proof {
        assert(s@.subrange(i as int, j as int) =~= head);
    }
    while i < j && is_white_space(s[j - 1])
        invariant
            i <= j <= s.len(),
            trim_end(head) == trim_end(s@.subrange(i as int, j as int)),
        decreases j,
    {
        proof {
            assert(s@.subrange(i as int, j as int).drop_last() =~= s@.subrange(i as int, j - 1));
        }
        j -= 1;
    }
    copy_range(s, i, j)
}

/// The characters from `from` to `to`.
pub fn copy_range(s: &[char], from: usize, to: usize) -> (r: Vec<char>)
    requires
        from <= to <= s.len(),
    ensures
        r@ == s@.subrange(from as int, to as int),
{
    let mut r: Vec<char> = Vec::new();
    let mut k: usize = from;
    while k < to
        invariant
            from <= k <= to <= s.len(),
            r@ == s@.subrange(from as int, k as int),
        decreases to - k,
    {
        proof {
            assert(s@.subrange(from as int, k + 1) =~= s@.subrange(from as int, k as int).push(
                s@[k as int],
            ));
        }
        r.push(s[k]);
        k += 1;
    }
    r
}

/// `s` without the white space at both ends.
pub fn trimmed(s: &str) -> (r: String)
    ensures
        r@ == trim(s@),
{
    let chars = chars_of(s);
    let inner = trim_chars(&chars);
    string_of(&inner)
}

pub fn is_blank(s: &str) -> (r: bool)
    ensures
        r == (trim(s@).len() == 0),
{
    let chars = chars_of(s);
    trim_chars(&chars).len() == 0
}

/// How many characters stand before the first `c`.
pub open spec fn until(s: Seq<char>, c: char) -> nat
    decreases s.len(),
{
    if s.len() == 0 || s[0] == c {
        0
    } else {
        1 + until(s.skip(1), c)
    }
}

/// The parts of `s` between the separators: one more than there are separators.
pub open spec fn split(s: Seq<char>, c: char) -> Seq<Seq<char>>
    decreases s.len(),
{
    let n = until(s, c) as int;
    if n < s.len() {
        seq![s.take(n)] + split(s.skip(n + 1), c)
    } else {
        seq![s]
    }
}

pub fn split_at_char(s: &[char], c: char) -> (r: Vec<Vec<char>>)
    ensures
        views(r@) == split(s@, c),
{
    let mut r: Vec<Vec<char>> = Vec::new();
    let mut i: usize = 0;
    let mut w: Vec<char> = Vec::new();
    let ghost mut from: int = 0;
    proof {
        assert(s@.skip(0) =~= s@);
        assert(views(r@) + split(s@.skip(0), c) =~= split(s@, c));
    }
    while i < s.len()
        invariant
            i <= s.len(),
            0 <= from <= i,
            w@ == s@.subrange(from, i as int),
            until(s@.skip(from), c) == (i - from) + until(s@.skip(i as int), c),
            split(s@, c) == views(r@) + split(s@.skip(from), c),
        decreases s.len() - i,
    {
        if s[i] == c {
            let ghost rest = s@.skip(from);
            proof {
                assert(until(rest, c) == i - from);
                assert(rest.take(i - from) =~= w@);
                assert(rest.skip(i - from + 1) =~= s@.skip(i + 1));
                assert(views(r@.push(w)) =~= views(r@).push(w@));
                assert(views(r@) + (seq![w@] + split(s@.skip(i + 1), c)) =~= views(r@).push(w@)
                    + split(s@.skip(i + 1), c));
            }
            r.push(w);
            w = Vec::new();
            i += 1;
            proof {
                from = i as int;
                assert(w@ =~= s@.subrange(from, i as int));
            }
        } else {
            proof {
                assert(s@.skip(i as int).skip(1) =~= s@.skip(i + 1));
                assert(s@.subrange(from, i + 1) =~= s@.subrange(from, i as int).push(
                    s@[i as int],
                ));
            }
            w.push(s[i]);
            i += 1;
        }
    }
    proof {
        let rest = s@.skip(from);
        assert(s@.skip(i as int).len() == 0);
        assert(until(rest, c) == rest.len());
        assert(rest =~= w@);
        assert(views(r@.push(w)) =~= views(r@).push(w@));
        assert(views(r@) + seq![w@] =~= views(r@).push(w@));
    }
    r.push(w);
    r
}

pub open spec fn drop_leading(s: Seq<char>, c: char) -> Seq<char>
    decreases s.len(),
{
    if s.len() > 0 && s[0] == c {
        drop_leading(s.skip(1), c)
    } else {
        s
    }
}

pub open spec fn drop_trailing(s: Seq<char>, c: char) -> Seq<char>
    decreases s.len(),
{
    if s.len() > 0 && s.last() == c {
        drop_trailing(s.drop_last(), c)
    } else {
        s
    }
}

pub fn without_leading(s: &[char], c: char) -> (r: Vec<char>)
    ensures
        r@ == drop_leading(s@, c),
{
    let mut i: usize = 0;
    proof {
        assert(s@.skip(0) =~= s@);
    }
    while i < s.len() && s[i] == c
        invariant
            i <= s.len(),
            drop_leading(s@, c) == drop_leading(s@.skip(i as int), c),
        decreases s.len() - i,
    {
        proof {
            assert(s@.skip(i as int).skip(1) =~= s@.skip(i + 1));
        }
        i += 1;
    }
    let r = copy_range(s, i, s.len());
    proof {
        assert(r@ =~= s@.skip(i as int));
    }
    r
}

pub fn without_trailing(s: &[char], c: char) -> (r: Vec<char>)
    ensures
        r@ == drop_trailing(s@, c),
{
    let mut j: usize = s.len();
    proof {
        assert(s@.take(j as int) =~= s@);
    }
    while j > 0 && s[j - 1] == c
        invariant
            j <= s.len(),
            drop_trailing(s@, c) == drop_trailing(s@.take(j as int), c),
        decreases j,
    {
        proof {
            assert(s@.take(j as int).drop_last() =~= s@.take(j - 1));
        }
        j -= 1;
    }
    let r = copy_range(s, 0, j);
    proof {
        assert(r@ =~= s@.take(j as int));
    }
    r
}

/// `s` without any number of `prefix` in front.
pub open spec fn drop_prefixes(s: Seq<char>, prefix: Seq<char>) -> Seq<char>
    decreases s.len(),
{
    if prefix.len() > 0 && starts_with(s, prefix) {
        drop_prefixes(s.skip(prefix.len() as int), prefix)
    } else {
        s
    }
}

pub fn without_prefixes(s: &[char], prefix: &str) -> (r: Vec<char>)
    ensures
        r@ == drop_prefixes(s@, prefix@),
{
    let p = chars_of(prefix);
    if p.len() == 0 {
        return copy_range(s, 0, s.len());
    }
    let mut i: usize = 0;
    proof {
        assert(s@.skip(0) =~= s@);
    }
    while occurs_here(s, &p, i)
        invariant
            i <= s.len(),
            p@ == prefix@,
            p@.len() > 0,
            drop_prefixes(s@, prefix@) == drop_prefixes(s@.skip(i as int), prefix@),
        decreases s.len() - i,
    {
        proof {
            let rest = s@.skip(i as int);
            assert(rest.subrange(0, p@.len() as int) =~= s@.subrange(i as int, i + p@.len()));
            assert(rest.skip(p@.len() as int) =~= s@.skip(i + p@.len()));
        }
        i += p.len();
    }
    proof {
        let rest = s@.skip(i as int);
        if starts_with(rest, p@) {
            assert(rest.subrange(0, p@.len() as int) =~= s@.subrange(i as int, i + p@.len()));
        }
    }
    let r = copy_range(s, i, s.len());
    proof {
        assert(r@ =~= s@.skip(i as int));
    }
    r
}

pub open spec fn ends_with(s: Seq<char>, suffix: Seq<char>) -> bool {
    suffix.len() <= s.len() && occurs_at(s, suffix, s.len() - suffix.len())
}

pub fn ends_with_text(s: &[char], suffix: &str) -> (r: bool)
    ensures
        r == ends_with(s@, suffix@),
{
    let p = chars_of(suffix);
    if p.len() > s.len() {
        return false;
    }
    occurs_here(s, &p, s.len() - p.len())
}

/// Whether one of the texts is `text`.
pub fn holds_text(all: &[String], text: &str) -> (r: bool)
    ensures
        r == texts(all@).contains(text@),
{
    let mut i: usize = 0;
    while i < all.len()
        invariant
            i <= all.len(),
            forall|k: int| 0 <= k < i ==> texts(all@)[k] != text@,
        decreases all.len() - i,
    {
        if same_text(&all[i], text) {
            proof {
                assert(texts(all@)[i as int] == text@);
            }
            return true;
        }
        i += 1;
    }
    false
}

pub proof fn lemma_texts_push(all: Seq<String>, text: String)
    ensures
        texts(all.push(text)) == texts(all).push(text@),
{
    assert(texts(all.push(text)) =~= texts(all).push(text@));
}

/// By the first character in which they differ; a prefix comes first.
pub open spec fn comes_before(a: Seq<char>, b: Seq<char>) -> bool
    decreases a.len(),
{
    if b.len() == 0 {
        false
    } else if a.len() == 0 {
        true
    } else if a[0] != b[0] {
        a[0] < b[0]
    } else {
        comes_before(a.skip(1), b.skip(1))
    }
}

pub fn is_before(a: &[char], b: &[char]) -> (r: bool)
    ensures
        r == comes_before(a@, b@),
{
    let mut i: usize = 0;
    proof {
        assert(a@.skip(0) =~= a@);
        assert(b@.skip(0) =~= b@);
    }
    while i < a.len() && i < b.len()
        invariant
            i <= a.len(),
            i <= b.len(),
            comes_before(a@, b@) == comes_before(a@.skip(i as int), b@.skip(i as int)),
        decreases a.len() - i,
    {
        if a[i] != b[i] {
            return a[i] < b[i];
        }
        proof {
            assert(a@.skip(i as int).skip(1) =~= a@.skip(i + 1));
            assert(b@.skip(i as int).skip(1) =~= b@.skip(i + 1));
        }
        i += 1;
    }
    i < b.len()
}

/// The text with every letter lowered as Unicode says.
pub uninterp spec fn lowered(s: Seq<char>) -> Seq<char>;

/// `str::to_lowercase`: a function of the text alone.
#[verifier::external_body]
pub(crate) fn lowercase(s: &str) -> (r: String)
    ensures
        r@ == lowered(s@),
{
    s.to_lowercase()
}

// ---- what the pieces of a text are ----------------------------------------------------

proof fn lemma_trim_start(s: Seq<char>)
    ensures
        trim_start(s).len() <= s.len(),
        trim_start(s) == s.skip(s.len() - trim_start(s).len()),
        forall|k: int| 0 <= k < s.len() - trim_start(s).len() ==> white_space(#[trigger] s[k]),
        trim_start(s).len() > 0 ==> !white_space(trim_start(s)[0]),
    decreases s.len(),
{
    if s.len() > 0 && white_space(s[0]) {
        let rest = s.skip(1);
        lemma_trim_start(rest);
        assert(rest.skip(rest.len() - trim_start(rest).len()) =~= s.skip(
            s.len() - trim_start(s).len(),
        ));
        assert forall|k: int| 0 <= k < s.len() - trim_start(s).len() implies white_space(
            #[trigger] s[k],
        ) by {
            if k > 0 {
                assert(rest[k - 1] == s[k]);
            }
        }
    } else {
        assert(s.skip(0) =~= s);
    }
}

proof fn lemma_trim_end(s: Seq<char>)
    ensures
        trim_end(s).len() <= s.len(),
        trim_end(s) == s.take(trim_end(s).len() as int),
        forall|k: int| trim_end(s).len() <= k < s.len() ==> white_space(#[trigger] s[k]),
        trim_end(s).len() > 0 ==> !white_space(trim_end(s).last()),
    decreases s.len(),
{
    if s.len() > 0 && white_space(s.last()) {
        let rest = s.drop_last();
        lemma_trim_end(rest);
        assert(rest.take(trim_end(rest).len() as int) =~= s.take(trim_end(s).len() as int));
        assert forall|k: int| trim_end(s).len() <= k < s.len() implies white_space(
            #[trigger] s[k],
        ) by {
            if k < rest.len() {
                assert(rest[k] == s[k]);
            }
        }
    } else {
        assert(s.take(s.len() as int) =~= s);
    }
}

/// Trimming takes away the white space at both ends, all of it and nothing
/// else.
pub proof fn trimming_takes_white_space_from_both_ends(s: Seq<char>)
    ensures
        trim(s).len() > 0 ==> !white_space(trim(s)[0]) && !white_space(trim(s).last()),
        exists|i: int|
            0 <= i && i + trim(s).len() <= s.len() && #[trigger] s.subrange(i, i + trim(s).len())
                == trim(s) && (forall|k: int| 0 <= k < i ==> white_space(#[trigger] s[k])) && (
            forall|k: int| i + trim(s).len() <= k < s.len() ==> white_space(#[trigger] s[k])),
{
    let a = trim_start(s);
    lemma_trim_start(s);
    lemma_trim_end(a);
    let i = s.len() - a.len();
    assert(s.subrange(i, i + trim(s).len()) =~= trim(s));
    assert forall|k: int| i + trim(s).len() <= k < s.len() implies white_space(#[trigger] s[k]) by {
        assert(a[k - i] == s[k]);
    }
    if trim(s).len() > 0 {
        assert(trim(s)[0] == a[0]);
    }
}

proof fn lemma_join_front(first: Seq<char>, rest: Seq<Seq<char>>, sep: Seq<char>)
    requires
        rest.len() > 0,
    ensures
        join(seq![first] + rest, sep) == first + sep + join(rest, sep),
    decreases rest.len(),
{
    let all = seq![first] + rest;
    assert(all.drop_last() =~= seq![first] + rest.drop_last());
    assert(all.last() == rest.last());
    if rest.len() > 1 {
        lemma_join_front(first, rest.drop_last(), sep);
        assert(join(all, sep) =~= first + sep + join(rest, sep));
    } else {
        reveal_with_fuel(join, 3);
        assert(all.drop_last() =~= seq![first]);
        assert(join(all, sep) =~= first + sep + join(rest, sep));
    }
}

proof fn lemma_until(s: Seq<char>, c: char)
    ensures
        until(s, c) <= s.len(),
        forall|k: int| 0 <= k < until(s, c) ==> #[trigger] s[k] != c,
        until(s, c) < s.len() ==> s[until(s, c) as int] == c,
    decreases s.len(),
{
    if s.len() > 0 && s[0] != c {
        let rest = s.skip(1);
        lemma_until(rest, c);
        assert forall|k: int| 0 <= k < until(s, c) implies #[trigger] s[k] != c by {
            if k > 0 {
                assert(rest[k - 1] == s[k]);
            }
        }
        if until(s, c) < s.len() {
            assert(rest[until(rest, c) as int] == s[until(s, c) as int]);
        }
    }
}

/// The parts between the separators hold none, and put together with them they
/// are the text again.
pub proof fn parts_make_up_the_text(s: Seq<char>, c: char)
    ensures
        split(s, c).len() > 0,
        join(split(s, c), seq![c]) == s,
        forall|i: int, k: int|
            0 <= i < split(s, c).len() && 0 <= k < split(s, c)[i].len()
                ==> #[trigger] split(s, c)[i][k] != c,
    decreases s.len(),
{
    let n = until(s, c) as int;
    lemma_until(s, c);
    if n < s.len() {
        let rest = s.skip(n + 1);
        parts_make_up_the_text(rest, c);
        lemma_join_front(s.take(n), split(rest, c), seq![c]);
        assert(s.take(n) + seq![c] + rest =~= s);
        let all = split(s, c);
        assert forall|i: int, k: int|
            0 <= i < all.len() && 0 <= k < all[i].len() implies #[trigger] all[i][k] != c by {
            if i == 0 {
                assert(all[0] == s.take(n));
            } else {
                assert(all[i] == split(rest, c)[i - 1]);
            }
        }
    } else {
        let all = split(s, c);
        assert(all =~= seq![s]);
    }
}

/// Words are the runs without white space: none is empty or holds any, and a
/// text that is a single run is one word.
pub proof fn words_are_runs_without_white_space(s: Seq<char>)
    ensures
        forall|i: int| 0 <= i < words(s).len() ==> (#[trigger] words(s)[i]).len() > 0,
        forall|i: int, k: int|
            0 <= i < words(s).len() && 0 <= k < words(s)[i].len() ==> !white_space(
                #[trigger] words(s)[i][k],
            ),
        s.len() > 0 && (forall|k: int| 0 <= k < s.len() ==> !white_space(#[trigger] s[k]))
            ==> words(s) == seq![s],
        (forall|k: int| 0 <= k < s.len() ==> white_space(#[trigger] s[k])) ==> words(s).len() == 0,
    decreases s.len(),
{
    if s.len() > 0 {
        lemma_word_len(s);
        let n = word_len(s) as int;
        if n == 0 {
            let rest = s.skip(1);
            words_are_runs_without_white_space(rest);
            assert(white_space(s[0]));
            if forall|k: int| 0 <= k < s.len() ==> white_space(#[trigger] s[k]) {
                assert forall|k: int| 0 <= k < rest.len() implies white_space(
                    #[trigger] rest[k],
                ) by {
                    assert(rest[k] == s[k + 1]);
                }
            }
        } else {
            let rest = s.skip(n);
            words_are_runs_without_white_space(rest);
            let all = words(s);
            assert(all[0] == s.take(n));
            assert forall|i: int| 0 < i < all.len() implies #[trigger] all[i] == words(
                rest,
            )[i - 1] by {}
            assert forall|i: int, k: int|
                0 <= i < all.len() && 0 <= k < all[i].len() implies !white_space(
                #[trigger] all[i][k],
            ) by {
                if i == 0 {
                    assert(all[0][k] == s[k]);
                } else {
                    assert(all[i] == words(rest)[i - 1]);
                    assert(!white_space(words(rest)[i - 1][k]));
                }
            }
            assert(!white_space(s[0]));
            if forall|k: int| 0 <= k < s.len() ==> !white_space(#[trigger] s[k]) {
                assert(n == s.len());
                assert(s.take(n) =~= s);
                assert(all =~= seq![s]);
            }
        }
    }
}

/// White space before a text adds no word; a word before white space is the
/// first.
pub proof fn words_are_read_in_order(w: Seq<char>, c: char, s: Seq<char>)
    requires
        white_space(c),
        forall|k: int| 0 <= k < w.len() ==> !white_space(#[trigger] w[k]),
    ensures
        words(seq![c] + s) == words(s),
        w.len() > 0 ==> words(w + seq![c] + s) == seq![w] + words(s),
{
    let spaced = seq![c] + s;
    assert(spaced[0] == c);
    assert(spaced.skip(1) =~= s);
    if w.len() > 0 {
        let all = w + seq![c] + s;
        lemma_word_len(all);
        let n = word_len(all) as int;
        if n < w.len() {
            assert(all[n] == w[n]);
        }
        if n > w.len() {
            assert(all[w.len() as int] == c);
        }
        assert(n == w.len());
        assert(all.take(n) =~= w);
        assert(all.skip(n) =~= spaced);
    }
}

/// Lines end at line feeds, and a carriage return before one belongs to it.
pub proof fn lines_end_at_line_feeds(line: Seq<char>, rest: Seq<char>)
    requires
        forall|k: int| 0 <= k < line.len() ==> #[trigger] line[k] != '\n',
    ensures
        lines(line + seq!['\n'] + rest) == seq![
            if line.len() > 0 && line.last() == '\r' {
                line.drop_last()
            } else {
                line
            },
        ] + lines(rest),
        line.len() > 0 ==> lines(line) == seq![line],
        lines(Seq::empty()).len() == 0,
{
    let all = line + seq!['\n'] + rest;
    lemma_line_len(all);
    let n = line_len(all) as int;
    if n < line.len() {
        assert(all[n] == line[n]);
    }
    if n > line.len() {
        assert(all[line.len() as int] == '\n');
    }
    assert(n == line.len());
    assert(all.take(n) =~= line);
    assert(all.skip(n + 1) =~= rest);
    lemma_line_len(line);
    if line_len(line) < line.len() {
        assert(line[line_len(line) as int] == '\n');
    }
}

/// Dropping a character from an end drops it as often as it stands there.
pub proof fn dropping_takes_all_from_the_end(s: Seq<char>, c: char)
    ensures
        drop_leading(seq![c] + s, c) == drop_leading(s, c),
        drop_trailing(s.push(c), c) == drop_trailing(s, c),
        s.len() > 0 && s[0] != c ==> drop_leading(s, c) == s,
        s.len() > 0 && s.last() != c ==> drop_trailing(s, c) == s,
{
    let front = seq![c] + s;
    assert(front[0] == c);
    assert(front.skip(1) =~= s);
    assert(s.push(c).drop_last() =~= s);
}

/// Lower case touches the letters from `A` to `Z` and nothing else.
pub proof fn only_letters_are_lowered(s: Seq<char>, i: int)
    requires
        0 <= i < s.len(),
    ensures
        ascii_lower(s).len() == s.len(),
        'A' <= s[i] <= 'Z' ==> ascii_lower(s)[i] as u32 == s[i] as u32 + 32,
        !('A' <= s[i] <= 'Z') ==> ascii_lower(s)[i] == s[i],
{
}

/// A text contains what stands somewhere in it; it begins or ends with what
/// stands at that end.
pub proof fn texts_contain_what_stands_in_them(a: Seq<char>, n: Seq<char>, b: Seq<char>)
    ensures
        contains(a + n + b, n),
        starts_with(n + b, n),
        ends_with(a + n, n),
        a.len() < n.len() ==> !contains(a, n),
{
    let h = a + n + b;
    assert(h.subrange(a.len() as int, a.len() as int + n.len()) =~= n);
    assert(occurs_at(h, n, a.len() as int));
    assert((n + b).subrange(0, n.len() as int) =~= n);
    let t = a + n;
    assert(t.subrange(a.len() as int, t.len() as int) =~= n);
}

/// Texts are ordered by the first character in which they differ; what begins
/// another text comes before it.
pub proof fn texts_are_ordered_by_their_first_difference(
    p: Seq<char>,
    x: char,
    y: char,
    a: Seq<char>,
    b: Seq<char>,
)
    ensures
        x < y ==> comes_before(p + seq![x] + a, p + seq![y] + b),
        x > y ==> !comes_before(p + seq![x] + a, p + seq![y] + b),
        comes_before(p, p + seq![x] + a),
        !comes_before(p, p),
    decreases p.len(),
{
    let s = p + seq![x] + a;
    let t = p + seq![y] + b;
    if p.len() > 0 {
        let q = p.skip(1);
        texts_are_ordered_by_their_first_difference(q, x, y, a, b);
        assert(s.skip(1) =~= q + seq![x] + a);
        assert(t.skip(1) =~= q + seq![y] + b);
        assert(s[0] == p[0] && t[0] == p[0]);
    } else {
        assert(s[0] == x && t[0] == y);
    }
}

/// The characters that count as white space.
pub proof fn white_space_is_fixed(c: char)
    ensures
        white_space(c) <==> (9 <= c as u32 <= 13) || c as u32 == 32 || c as u32 == 0x85 || c as u32
            == 0xa0 || c as u32 == 0x1680 || (0x2000 <= c as u32 <= 0x200a) || c as u32 == 0x2028
            || c as u32 == 0x2029 || c as u32 == 0x202f || c as u32 == 0x205f || c as u32
            == 0x3000,
{
}

/// A text contains another exactly where the other is a part of it, begins with
/// it where that part is its front, and ends with it where it is its end.
pub proof fn containing_is_having_as_a_part(h: Seq<char>, n: Seq<char>)
    ensures
        contains(h, n) <==> exists|i: int|
            0 <= i && i + n.len() <= h.len() && #[trigger] h.subrange(i, i + n.len()) == n,
        starts_with(h, n) <==> n.len() <= h.len() && h.take(n.len() as int) == n,
        ends_with(h, n) <==> n.len() <= h.len() && h.skip(h.len() - n.len()) == n,
{
    if contains(h, n) {
        let i = choose|i: int| occurs_at(h, n, i);
        assert(h.subrange(i, i + n.len()) == n);
    }
    if exists|i: int|
        0 <= i && i + n.len() <= h.len() && #[trigger] h.subrange(i, i + n.len()) == n {
        let i = choose|i: int|
            0 <= i && i + n.len() <= h.len() && #[trigger] h.subrange(i, i + n.len()) == n;
        assert(occurs_at(h, n, i));
    }
    if n.len() <= h.len() {
        assert(h.subrange(0, n.len() as int) =~= h.take(n.len() as int));
        assert(h.subrange(h.len() - n.len(), h.len() as int) =~= h.skip(h.len() - n.len()));
    }
}

} // verus!
