//! What references stand for, and the attributes of a tag, as the feed parser
//! reads them.

use vstd::prelude::*;

use crate::play_time::{can_be_read, play_time_reads};
use crate::text::{chars_of, contains, copy_range, occurs_at, occurs_here, views};

verus! {

pub open spec fn xml_blank(c: char) -> bool {
    c == ' ' || c == '\t' || c == '\n' || c == '\r'
}

pub fn is_xml_blank(c: char) -> (r: bool)
    ensures
        r == xml_blank(c),
{
    c == ' ' || c == '\t' || c == '\n' || c == '\r'
}

pub open spec fn quotation(c: char) -> bool {
    c == '"' || c == '\''
}

pub fn is_quotation(c: char) -> (r: bool)
    ensures
        r == quotation(c),
{
    c == '"' || c == '\''
}

/// The characters from `from` up to `to` are this word.
pub open spec fn reads(chars: Seq<char>, from: int, to: int, word: Seq<char>) -> bool {
    to - from == word.len() && occurs_at(chars, word, from)
}

pub fn is_word(chars: &[char], from: usize, to: usize, word: &str) -> (r: bool)
    ensures
        r == reads(chars@, from as int, to as int, word@),
{
    if from > to || to > chars.len() {
        return false;
    }
    let letters = chars_of(word);
    to - from == letters.len() && occurs_here(chars, &letters, from)
}

// ---- references -------------------------------------------------------------

/// The value of a digit in a number system, where it is one.
pub open spec fn digit_value(c: char, base: int) -> Option<int> {
    if '0' <= c <= '9' {
        Some(c as int - '0' as int)
    } else if base == 16 && 'a' <= c <= 'f' {
        Some(c as int - 'a' as int + 10)
    } else if base == 16 && 'A' <= c <= 'F' {
        Some(c as int - 'A' as int + 10)
    } else {
        None
    }
}

/// The number that the characters from `i` on write in a number system, read
/// on from `so_far`; `None` where one is no digit.
pub open spec fn radix_value(s: Seq<char>, i: int, base: int, so_far: int) -> Option<int>
    decreases s.len() - i,
{
    if i < 0 || i >= s.len() {
        Some(so_far)
    } else {
        match digit_value(s[i], base) {
            None => None,
            Some(d) => radix_value(s, i + 1, base, so_far * base + d),
        }
    }
}

/// The number is that of a character other than the null.
pub open spec fn character(n: int) -> bool {
    0 < n < 0xd800 || 0xe000 <= n <= 0x10_ffff
}

/// The code point that a numeric reference writes behind its `#`.
pub open spec fn numbered(s: Seq<char>) -> Option<u32> {
    let hex = s.len() > 0 && s[0] == 'x';
    let from: int = if hex {
        1
    } else {
        0
    };
    let base: int = if hex {
        16
    } else {
        10
    };
    match radix_value(s, from, base, 0) {
        Some(n) => if s.len() > from && character(n) {
            Some(n as u32)
        } else {
            None
        },
        None => None,
    }
}

/// What a reference stands for.
#[derive(Debug, Clone, Copy, PartialEq, Eq, Structural)]
pub enum Reference {
    Character(u32),
    Unknown,
    Malformed,
}

/// What the reference with the name from `from` to `to` stands for.
#[verifier::opaque]
pub open spec fn referred(chars: Seq<char>, from: int, to: int) -> Reference {
    if from < to && chars[from] == '#' {
        match numbered(chars.subrange(from + 1, to)) {
            Some(code) => Reference::Character(code),
            None => Reference::Malformed,
        }
    } else if reads(chars, from, to, "lt"@) {
        Reference::Character(0x3c)
    } else if reads(chars, from, to, "gt"@) {
        Reference::Character(0x3e)
    } else if reads(chars, from, to, "amp"@) {
        Reference::Character(0x26)
    } else if reads(chars, from, to, "apos"@) {
        Reference::Character(0x27)
    } else if reads(chars, from, to, "quot"@) {
        Reference::Character(0x22)
    } else {
        Reference::Unknown
    }
}

fn read_digit(c: char, base: u64) -> (r: Option<u64>)
    requires
        base == 10 || base == 16,
    ensures
        match r {
            Some(d) => digit_value(c, base as int) == Some(d as int) && d < base,
            None => digit_value(c, base as int) is None,
        },
{
    if '0' <= c && c <= '9' {
        Some(c as u64 - '0' as u64)
    } else if base == 16 && 'a' <= c && c <= 'f' {
        Some(c as u64 - 'a' as u64 + 10)
    } else if base == 16 && 'A' <= c && c <= 'F' {
        Some(c as u64 - 'A' as u64 + 10)
    } else {
        None
    }
}

proof fn lemma_radix_grows(s: Seq<char>, i: int, base: int, so_far: int)
    requires
        0 <= i,
        0 <= so_far,
        base == 10 || base == 16,
    ensures
        radix_value(s, i, base, so_far) matches Some(n) ==> n >= so_far,
    decreases s.len() - i,
{
    if i < s.len() {
        if let Some(d) = digit_value(s[i], base) {
            assert(so_far * base + d >= so_far) by (nonlinear_arith)
                requires
                    so_far >= 0,
                    d >= 0,
                    base == 10 || base == 16,
            ;
            lemma_radix_grows(s, i + 1, base, so_far * base + d);
        }
    }
}

fn read_numbered(s: &[char]) -> (r: Option<u32>)
    ensures
        r == numbered(s@),
{
    let hex: bool = s.len() > 0 && s[0] == 'x';
    let from: usize = if hex {
        1
    } else {
        0
    };
    let base: u64 = if hex {
        16
    } else {
        10
    };
    if s.len() <= from {
        return None;
    }
    let mut n: u64 = 0;
    let mut i: usize = from;
    while i < s.len()
        invariant
            i <= s.len(),
            from < s.len(),
            base == 10 || base == 16,
            n <= 0x10_ffff,
            hex == (s@.len() > 0 && s@[0] == 'x'),
            from == (if hex {
                1int
            } else {
                0
            }),
            base == (if hex {
                16int
            } else {
                10
            }),
            radix_value(s@, from as int, base as int, 0) == radix_value(
                s@,
                i as int,
                base as int,
                n as int,
            ),
        decreases s.len() - i,
    {
        match read_digit(s[i], base) {
            None => {
                return None;
            },
            Some(d) => {
                assert(n * base + d <= 0x10_ffff * 16 + 16) by (nonlinear_arith)
                    requires
                        n <= 0x10_ffff,
                        d < base,
                        base == 10 || base == 16,
                ;
                n = n * base + d;
            },
        }
        i += 1;
        if n > 0x10_ffff {
            proof {
                lemma_radix_grows(s@, i as int, base as int, n as int);
            }
            return None;
        }
    }
    if n == 0 || (0xd800 <= n && n < 0xe000) {
        None
    } else {
        Some(n as u32)
    }
}

pub fn read_reference(chars: &[char], from: usize, to: usize) -> (r: Reference)
    requires
        from <= to <= chars.len(),
    ensures
        r == referred(chars@, from as int, to as int),
{
    proof {
        reveal(referred);
    }
    if from < to && chars[from] == '#' {
        let name = copy_range(chars, from + 1, to);
        match read_numbered(&name) {
            Some(code) => Reference::Character(code),
            None => Reference::Malformed,
        }
    } else if is_word(chars, from, to, "lt") {
        Reference::Character(0x3c)
    } else if is_word(chars, from, to, "gt") {
        Reference::Character(0x3e)
    } else if is_word(chars, from, to, "amp") {
        Reference::Character(0x26)
    } else if is_word(chars, from, to, "apos") {
        Reference::Character(0x27)
    } else if is_word(chars, from, to, "quot") {
        Reference::Character(0x22)
    } else {
        Reference::Unknown
    }
}

// ---- looking for characters -------------------------------------------------

/// What is looked for in a tag.
#[derive(Debug, Clone, Copy, PartialEq, Eq, Structural)]
pub enum Target {
    Blank,
    Filled,
    KeyEnd,
    ReferenceEnd,
    Is(char),
}

pub open spec fn hits(target: Target, c: char) -> bool {
    match target {
        Target::Blank => xml_blank(c),
        Target::Filled => !xml_blank(c),
        Target::KeyEnd => c == '=' || xml_blank(c),
        Target::ReferenceEnd => c == '&' || c == ';',
        Target::Is(wanted) => c == wanted,
    }
}

/// Where the target stands at or after `i`; the end where it does not.
pub open spec fn seek(c: Seq<char>, i: int, target: Target) -> int
    decreases c.len() - i,
{
    if 0 <= i < c.len() && !hits(target, c[i]) {
        seek(c, i + 1, target)
    } else {
        i
    }
}

proof fn lemma_seek(c: Seq<char>, i: int, target: Target)
    requires
        0 <= i <= c.len(),
    ensures
        i <= seek(c, i, target) <= c.len(),
        seek(c, i, target) < c.len() ==> hits(target, c[seek(c, i, target)]),
    decreases c.len() - i,
{
    if i < c.len() && !hits(target, c[i]) {
        lemma_seek(c, i + 1, target);
    }
}

fn find_target(c: &[char], from: usize, target: Target) -> (r: usize)
    requires
        from <= c.len(),
    ensures
        r == seek(c@, from as int, target),
        from <= r <= c.len(),
        r < c.len() ==> hits(target, c@[r as int]),
{
    let mut i: usize = from;
    while i < c.len()
        invariant
            from <= i <= c.len(),
            seek(c@, from as int, target) == seek(c@, i as int, target),
        decreases c.len() - i,
    {
        let letter = c[i];
        let hit: bool = match target {
            Target::Blank => is_xml_blank(letter),
            Target::Filled => !is_xml_blank(letter),
            Target::KeyEnd => letter == '=' || is_xml_blank(letter),
            Target::ReferenceEnd => letter == '&' || letter == ';',
            Target::Is(wanted) => letter == wanted,
        };
        if hit {
            return i;
        }
        i += 1;
    }
    i
}

// ---- values -----------------------------------------------------------------

pub open spec fn codes(v: Seq<char>) -> Seq<u32> {
    v.map_values(|c: char| c as u32)
}

/// A value from `i` on, with what its references stand for; `None` where one
/// of them is not known or does not end.
pub open spec fn unescaped(v: Seq<char>, i: int) -> Option<Seq<u32>>
    decreases v.len() - i,
{
    let start = seek(v, i, Target::Is('&'));
    if i < 0 || start < i || start >= v.len() {
        Some(codes(v.subrange(i, v.len() as int)))
    } else {
        let end = seek(v, start + 1, Target::ReferenceEnd);
        if end <= start || end >= v.len() || v[end] != ';' {
            None
        } else {
            match (referred(v, start + 1, end), unescaped(v, end + 1)) {
                (Reference::Character(code), Some(rest)) => Some(
                    codes(v.subrange(i, start)) + seq![code] + rest,
                ),
                _ => None,
            }
        }
    }
}

/// What a value says: as it stands where its references cannot be resolved.
pub open spec fn value_text(v: Seq<char>) -> Seq<u32> {
    match unescaped(v, 0) {
        Some(t) => t,
        None => codes(v),
    }
}

fn push_codes(t: &mut Vec<u32>, v: &[char], from: usize, to: usize)
    requires
        from <= to <= v.len(),
    ensures
        final(t)@ == old(t)@ + codes(v@.subrange(from as int, to as int)),
{
    let mut i: usize = from;
    proof {
        assert(t@ =~= old(t)@ + codes(v@.subrange(from as int, from as int)));
    }
    while i < to
        invariant
            from <= i <= to <= v.len(),
            t@ == old(t)@ + codes(v@.subrange(from as int, i as int)),
        decreases to - i,
    {
        t.push(v[i] as u32);
        i += 1;
        proof {
            assert(t@ =~= old(t)@ + codes(v@.subrange(from as int, i as int)));
        }
    }
}

fn unescape(v: &[char]) -> (r: Option<Vec<u32>>)
    ensures
        match r {
            Some(t) => unescaped(v@, 0) == Some(t@),
            None => unescaped(v@, 0) is None,
        },
{
    let mut t: Vec<u32> = Vec::new();
    let mut i: usize = 0;
    let ghost whole = unescaped(v@, 0);
    proof {
        if let Some(all) = whole {
            assert(Seq::<u32>::empty() + all =~= all);
        }
    }
    loop
        invariant
            i <= v.len(),
            whole == unescaped(v@, 0),
            whole == (match unescaped(v@, i as int) {
                Some(rest) => Some(t@ + rest),
                None => None,
            }),
        decreases v.len() - i,
    {
        let start = find_target(v, i, Target::Is('&'));
        let ghost before = t@;
        if start >= v.len() {
            push_codes(&mut t, v, i, v.len());
            return Some(t);
        }
        let end = find_target(v, start + 1, Target::ReferenceEnd);
        if end >= v.len() || v[end] != ';' {
            return None;
        }
        match read_reference(v, start + 1, end) {
            Reference::Character(code) => {
                push_codes(&mut t, v, i, start);
                t.push(code);
                proof {
                    if let Some(rest) = unescaped(v@, end + 1) {
                        let piece = codes(v@.subrange(i as int, start as int)) + seq![code];
                        assert(before + (piece + rest) =~= t@ + rest);
                    }
                }
            },
            _ => {
                return None;
            },
        }
        i = end + 1;
    }
}

fn read_value(v: &[char]) -> (r: Vec<u32>)
    ensures
        r@ == value_text(v@),
{
    match unescape(v) {
        Some(t) => t,
        None => {
            let mut t: Vec<u32> = Vec::new();
            push_codes(&mut t, v, 0, v.len());
            proof {
                assert(v@.subrange(0, v@.len() as int) =~= v@);
                assert(t@ =~= codes(v@));
            }
            t
        },
    }
}

// ---- attributes -------------------------------------------------------------

/// The attributes that give times.
pub open spec fn names_time(key: Seq<char>) -> bool {
    key == "start"@ || key == "end"@ || key == "time"@
}

/// The times can be read that the attributes from `at` on give. `keys` are the
/// attributes before. The parser goes on behind an attribute that it cannot
/// read, and behind one that stood before it goes on at the next blank.
pub open spec fn times_read(c: Seq<char>, at: int, keys: Seq<Seq<char>>) -> bool
    decreases c.len() - at,
{
    let s = seek(c, at, Target::Filled);
    let e = seek(c, s + 1, Target::KeyEnd);
    let o = if e < c.len() && c[e] == '=' {
        e
    } else {
        seek(c, e + 1, Target::Filled)
    };
    if at < 0 || s < at || e <= s || o < e || o >= c.len() || e >= c.len() || s >= c.len() {
        true
    } else if c[o] != '=' {
        times_read(c, o, keys)
    } else if keys.contains(c.subrange(s, e)) {
        let n = seek(c, o, Target::Blank);
        n < o || n >= c.len() || times_read(c, n, keys)
    } else {
        let key = c.subrange(s, e);
        let v = seek(c, o + 1, Target::Filled);
        if v <= o || v >= c.len() {
            true
        } else if !quotation(c[v]) {
            let n = seek(c, v, Target::Blank);
            n < v || n >= c.len() || times_read(c, n, keys.push(key))
        } else {
            let w = seek(c, v + 1, Target::Is(c[v]));
            w <= v || w >= c.len() || ((names_time(key) ==> play_time_reads(
                value_text(c.subrange(v + 1, w)),
            )) && times_read(c, w + 1, keys.push(key)))
        }
    }
}

fn holds_key(keys: &[Vec<char>], key: &[char]) -> (r: bool)
    ensures
        r == views(keys@).contains(key@),
{
    let mut i: usize = 0;
    while i < keys.len()
        invariant
            i <= keys.len(),
            forall|k: int| 0 <= k < i ==> (#[trigger] views(keys@)[k]) != key@,
        decreases keys.len() - i,
    {
        if keys[i].len() == key.len() && occurs_here(&keys[i], key, 0) {
            proof {
                assert(keys@[i as int]@.subrange(0, key@.len() as int) =~= keys@[i as int]@);
                assert(views(keys@)[i as int] == key@);
            }
            return true;
        }
        proof {
            assert(views(keys@)[i as int] == keys@[i as int]@);
            if keys@[i as int]@ == key@ {
                assert(key@.subrange(0, key@.len() as int) =~= key@);
            }
        }
        i += 1;
    }
    false
}

fn is_time_name(key: &[char]) -> (r: bool)
    ensures
        r == names_time(key@),
{
    proof {
        assert(key@.subrange(0, key@.len() as int) =~= key@);
    }
    is_word(key, 0, key.len(), "start") || is_word(key, 0, key.len(), "end") || is_word(
        key,
        0,
        key.len(),
        "time",
    )
}

/// Whether the times can be read that the attributes of a tag give.
pub fn times_can_be_read(c: &[char]) -> (r: bool)
    ensures
        r == times_read(c@, 0, Seq::empty()),
{
    let mut keys: Vec<Vec<char>> = Vec::new();
    let mut at: usize = 0;
    proof {
        assert(views(keys@) =~= Seq::<Seq<char>>::empty());
    }
    loop
        invariant
            at <= c.len(),
            times_read(c@, 0, Seq::empty()) == times_read(c@, at as int, views(keys@)),
        decreases c.len() - at,
    {
        let s = find_target(c, at, Target::Filled);
        if s >= c.len() {
            return true;
        }
        let e = find_target(c, s + 1, Target::KeyEnd);
        if e >= c.len() {
            return true;
        }
        let o: usize = if c[e] == '=' {
            e
        } else {
            find_target(c, e + 1, Target::Filled)
        };
        if o >= c.len() {
            return true;
        }
        if c[o] != '=' {
            at = o;
            continue ;
        }
        let key = copy_range(c, s, e);
        if holds_key(&keys, &key) {
            let n = find_target(c, o, Target::Blank);
            if n >= c.len() {
                return true;
            }
            at = n;
            continue ;
        }
        let timed = is_time_name(&key);
        let ghost known = views(keys@);
        keys.push(key);
        proof {
            assert(views(keys@) =~= known.push(c@.subrange(s as int, e as int)));
        }
        let v = find_target(c, o + 1, Target::Filled);
        if v >= c.len() {
            return true;
        }
        if !is_quotation(c[v]) {
            let n = find_target(c, v, Target::Blank);
            if n >= c.len() {
                return true;
            }
            at = n;
            continue ;
        }
        let w = find_target(c, v + 1, Target::Is(c[v]));
        if w >= c.len() {
            return true;
        }
        if timed {
            let value = copy_range(c, v + 1, w);
            let text = read_value(&value);
            if !can_be_read(&text) {
                return false;
            }
        }
        at = w + 1;
    }
}

// ---- what references and attributes say ---------------------------------------------

proof fn lemma_seek_none(v: Seq<char>, i: int, target: Target)
    requires
        0 <= i <= v.len(),
        forall|k: int| i <= k < v.len() ==> !hits(target, #[trigger] v[k]),
    ensures
        seek(v, i, target) == v.len(),
    decreases v.len() - i,
{
    if i < v.len() {
        lemma_seek_none(v, i + 1, target);
    }
}

/// A value without references says what it holds.
pub proof fn plain_values_say_what_they_hold(v: Seq<char>)
    requires
        forall|k: int| 0 <= k < v.len() ==> #[trigger] v[k] != '&',
    ensures
        value_text(v) == codes(v),
        codes(v).len() == v.len(),
        forall|k: int| 0 <= k < v.len() ==> #[trigger] codes(v)[k] == v[k] as u32,
{
    assert forall|k: int| 0 <= k < v.len() implies !hits(Target::Is('&'), #[trigger] v[k]) by {}
    lemma_seek_none(v, 0, Target::Is('&'));
    assert(v.subrange(0, v.len() as int) =~= v);
}

/// The five named references stand for their characters; any other name stands
/// for nothing that is known.
pub proof fn named_references_are_fixed(chars: Seq<char>, from: int, to: int)
    requires
        0 <= from < to <= chars.len(),
        chars[from] != '#',
    ensures
        ({
            let name = chars.subrange(from, to);
            &&& name == "lt"@ ==> referred(chars, from, to) == Reference::Character('<' as u32)
            &&& name == "gt"@ ==> referred(chars, from, to) == Reference::Character('>' as u32)
            &&& name == "amp"@ ==> referred(chars, from, to) == Reference::Character('&' as u32)
            &&& name == "apos"@ ==> referred(chars, from, to) == Reference::Character('\'' as u32)
            &&& name == "quot"@ ==> referred(chars, from, to) == Reference::Character('"' as u32)
            &&& name != "lt"@ && name != "gt"@ && name != "amp"@ && name != "apos"@ && name
                != "quot"@ ==> referred(chars, from, to) is Unknown
        }),
{
    reveal(referred);
    reveal_strlit("lt");
    reveal_strlit("gt");
    reveal_strlit("amp");
    reveal_strlit("apos");
    reveal_strlit("quot");
    let name = chars.subrange(from, to);
    assert("lt"@[0] == 'l' && "gt"@[0] == 'g');
    assert("apos"@[0] == 'a' && "quot"@[0] == 'q');
    assert("lt"@.len() == 2 && "gt"@.len() == 2 && "amp"@.len() == 3 && "apos"@.len() == 4
        && "quot"@.len() == 4);
    assert forall|word: Seq<char>| #[trigger] reads(chars, from, to, word) == (name == word) by {
        if name == word {
            assert(word.len() == to - from);
            assert(chars.subrange(from, from + word.len()) == word);
        }
    }
}

/// A numbered reference counts in tens, or behind an `x` in sixteens.
pub proof fn numbered_references_count(c: char)
    ensures
        '0' <= c <= '9' ==> digit_value(c, 10) == Some(c as int - 48) && digit_value(c, 16) == Some(
            c as int - 48,
        ),
        'a' <= c <= 'f' ==> digit_value(c, 16) == Some(c as int - 87) && digit_value(
            c,
            10,
        ) is None,
        'A' <= c <= 'F' ==> digit_value(c, 16) == Some(c as int - 55) && digit_value(
            c,
            10,
        ) is None,
        forall|s: Seq<char>, i: int, base: int, so_far: int|
            0 <= i < s.len() && (#[trigger] digit_value(s[i], base)) is Some
                ==> #[trigger] radix_value(s, i, base, so_far) == radix_value(
                s,
                i + 1,
                base,
                so_far * base + digit_value(s[i], base)->0,
            ),
{
}

/// Attributes are read where none of them gives a time.
pub proof fn attributes_without_times_are_read(c: Seq<char>, at: int, keys: Seq<Seq<char>>)
    requires
        !contains(c, "start"@),
        !contains(c, "end"@),
        !contains(c, "time"@),
    ensures
        times_read(c, at, keys),
    decreases c.len() - at,
{
    let s = seek(c, at, Target::Filled);
    let e = seek(c, s + 1, Target::KeyEnd);
    let o = if e < c.len() && c[e] == '=' {
        e
    } else {
        seek(c, e + 1, Target::Filled)
    };
    if at < 0 || s < at || e <= s || o < e || o >= c.len() || e >= c.len() || s >= c.len() {
    } else if c[o] != '=' {
        attributes_without_times_are_read(c, o, keys);
    } else if keys.contains(c.subrange(s, e)) {
        let n = seek(c, o, Target::Blank);
        if !(n < o || n >= c.len()) {
            attributes_without_times_are_read(c, n, keys);
        }
    } else {
        let key = c.subrange(s, e);
        let v = seek(c, o + 1, Target::Filled);
        if v <= o || v >= c.len() {
        } else if !quotation(c[v]) {
            let n = seek(c, v, Target::Blank);
            if !(n < v || n >= c.len()) {
                attributes_without_times_are_read(c, n, keys.push(key));
            }
        } else {
            let w = seek(c, v + 1, Target::Is(c[v]));
            if !(w <= v || w >= c.len()) {
                assert(occurs_at(c, key, s));
                attributes_without_times_are_read(c, w + 1, keys.push(key));
            }
        }
    }
}

/// A time is what is given as a start, an end or a time.
pub proof fn times_are_named(key: Seq<char>)
    ensures
        names_time(key) <==> key == "start"@ || key == "end"@ || key == "time"@,
{
}

} // verus!
