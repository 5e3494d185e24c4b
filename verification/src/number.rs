//! Decimal numerals.

use vstd::prelude::*;

use crate::text::{chars_of, string_of};

verus! {

pub open spec fn digit(d: nat) -> char {
    ('0' as u8 + d) as char
}

/// The decimal numeral of a natural number, without leading zeros.
pub open spec fn decimal(n: nat) -> Seq<char>
    decreases n,
{
    if n < 10 {
        seq![digit(n)]
    } else {
        decimal(n / 10).push(digit(n % 10))
    }
}

/// The decimal numeral of an integer, with `-` before a negative one.
pub open spec fn signed(n: int) -> Seq<char> {
    if n < 0 {
        seq!['-'] + decimal((-n) as nat)
    } else {
        decimal(n as nat)
    }
}

fn decimal_chars(n: u64) -> (r: Vec<char>)
    ensures
        r@ == decimal(n as nat),
    decreases n,
{
    if n < 10 {
        let c: char = (48u8 + n as u8) as char;
        let mut r: Vec<char> = Vec::new();
        r.push(c);
        proof {
            assert(r@ =~= decimal(n as nat));
        }
        r
    } else {
        let mut r = decimal_chars(n / 10);
        let d: u8 = (n % 10) as u8;
        r.push((48u8 + d) as char);
        r
    }
}

pub fn decimal_u64(n: u64) -> (r: String)
    ensures
        r@ == decimal(n as nat),
{
    string_of(&decimal_chars(n))
}

pub fn decimal_usize(n: usize) -> (r: String)
    ensures
        r@ == decimal(n as nat),
{
    decimal_u64(n as u64)
}

pub fn decimal_i64(n: i64) -> (r: String)
    ensures
        r@ == signed(n as int),
{
    if n < 0 {
        let magnitude: u64 = (-(n + 1)) as u64 + 1;
        let digits = decimal_chars(magnitude);
        let mut r: Vec<char> = Vec::new();
        r.push('-');
        r.extend_from_slice(digits.as_slice());
        proof {
            assert(r@ =~= signed(n as int));
        }
        string_of(&r)
    } else {
        decimal_u64(n as u64)
    }
}

pub open spec fn is_digit(c: char) -> bool {
    '0' <= c <= '9'
}

pub open spec fn all_digits(s: Seq<char>) -> bool {
    forall|i: int| 0 <= i < s.len() ==> is_digit(#[trigger] s[i])
}

/// The number that a sequence of digits writes down.
pub open spec fn digits_value(s: Seq<char>) -> int
    decreases s.len(),
{
    if s.len() == 0 {
        0
    } else {
        digits_value(s.drop_last()) * 10 + (s.last() as int - '0' as int)
    }
}

/// The integer that `s` writes down: an optional sign and at least one digit.
pub open spec fn integer(s: Seq<char>) -> Option<int> {
    if s.len() > 0 && (s[0] == '-' || s[0] == '+') {
        let body = s.skip(1);
        if body.len() > 0 && all_digits(body) {
            Some(if s[0] == '-' { -digits_value(body) } else { digits_value(body) })
        } else {
            None
        }
    } else if s.len() > 0 && all_digits(s) {
        Some(digits_value(s))
    } else {
        None
    }
}

pub open spec fn parsed_i64(s: Seq<char>) -> Option<i64> {
    match integer(s) {
        Some(v) => if i64::MIN <= v <= i64::MAX {
            Some(v as i64)
        } else {
            None
        },
        None => None,
    }
}

pub proof fn lemma_digits_value_bounds(s: Seq<char>)
    requires
        all_digits(s),
    ensures
        digits_value(s) >= 0,
    decreases s.len(),
{
    if s.len() > 0 {
        let front = s.drop_last();
        assert forall|i: int| 0 <= i < front.len() implies is_digit(#[trigger] front[i]) by {
            assert(front[i] == s[i]);
        }
        lemma_digits_value_bounds(front);
        assert(is_digit(s[s.len() - 1]));
    }
}

/// The longest value that the exact accumulator below needs to hold.
const MAGNITUDE_LIMIT: i128 = 9_223_372_036_854_775_808;

/// The digits from `from` on as a number; `None` where there is none, one of
/// them is no digit, or the number exceeds 2^63.
fn magnitude(s: &[char], from: usize) -> (r: Option<i128>)
    requires
        from <= s.len(),
    ensures
        match r {
            Some(v) => from < s.len() && all_digits(s@.skip(from as int)) && v == digits_value(
                s@.skip(from as int),
            ) && 0 <= v <= MAGNITUDE_LIMIT,
            None => from == s.len() || !all_digits(s@.skip(from as int)) || digits_value(
                s@.skip(from as int),
            ) > MAGNITUDE_LIMIT,
        },
{
    if from == s.len() {
        return None;
    }
    let mut acc: i128 = 0;
    let mut exceeded: bool = false;
    let mut i: usize = from;
    while i < s.len()
        invariant
            from <= i <= s.len(),
            all_digits(s@.subrange(from as int, i as int)),
            0 <= acc <= MAGNITUDE_LIMIT,
            !exceeded ==> acc == digits_value(s@.subrange(from as int, i as int)),
            exceeded ==> digits_value(s@.subrange(from as int, i as int)) > MAGNITUDE_LIMIT,
        decreases s.len() - i,
    {
        let c = s[i];
        let ghost before = s@.subrange(from as int, i as int);
        let ghost after = s@.subrange(from as int, i + 1);
        proof {
            assert(after.drop_last() =~= before);
            assert(after.last() == c);
        }
        if c < '0' || '9' < c {
            proof {
                assert(s@.skip(from as int)[i - from] == c);
            }
            return None;
        }
        proof {
            assert forall|k: int| 0 <= k < after.len() implies is_digit(#[trigger] after[k]) by {
                if k < before.len() {
                    assert(after[k] == before[k]);
                }
            }
            lemma_digits_value_bounds(before);
        }
        let d: i128 = (c as u8 - 48u8) as i128;
        if !exceeded {
            let next: i128 = acc * 10 + d;
            if next > MAGNITUDE_LIMIT {
                exceeded = true;
            } else {
                acc = next;
            }
        }
        i += 1;
    }
    proof {
        assert(s@.subrange(from as int, i as int) =~= s@.skip(from as int));
    }
    if exceeded {
        None
    } else {
        Some(acc)
    }
}

/// Reads a signed 64-bit number in decimal.
pub fn parse_i64(text: &str) -> (r: Option<i64>)
    ensures
        r == parsed_i64(text@),
{
    let s = chars_of(text);
    if s.len() == 0 {
        return None;
    }
    let signed_text: bool = s[0] == '-' || s[0] == '+';
    let from: usize = if signed_text { 1 } else { 0 };
    proof {
        assert(s@.skip(0) =~= s@);
        if s@.skip(from as int).len() > 0 && all_digits(s@.skip(from as int)) {
            lemma_digits_value_bounds(s@.skip(from as int));
        }
    }
    match magnitude(&s, from) {
        None => None,
        Some(v) => {
            let value: i128 = if s[0] == '-' { -v } else { v };
            if value > 9_223_372_036_854_775_807 {
                None
            } else {
                Some(value as i64)
            }
        },
    }
}

pub proof fn lemma_decimal(n: nat)
    ensures
        decimal(n).len() > 0,
        all_digits(decimal(n)),
        digits_value(decimal(n)) == n,
    decreases n,
{
    if n < 10 {
        assert(decimal(n).drop_last() =~= Seq::<char>::empty());
        assert(digits_value(decimal(n).drop_last()) == 0);
    } else {
        lemma_decimal(n / 10);
        let front = decimal(n / 10);
        let whole = decimal(n);
        assert(whole.drop_last() =~= front);
        assert forall|i: int| 0 <= i < whole.len() implies is_digit(#[trigger] whole[i]) by {
            if i < front.len() {
                assert(whole[i] == front[i]);
            }
        }
    }
}

/// Reading the numeral of a number gives the number back.
pub proof fn reading_a_numeral_restores_the_number(n: i64)
    ensures
        parsed_i64(signed(n as int)) == Some(n),
{
    if n < 0 {
        lemma_decimal((-n) as nat);
        assert(signed(n as int).skip(1) =~= decimal((-n) as nat));
    } else {
        lemma_decimal(n as nat);
        assert(is_digit(decimal(n as nat)[0]));
    }
}

/// The natural number that `s` writes down, with an optional `+` in front,
/// where it does not exceed `max`.
pub open spec fn natural_up_to(s: Seq<char>, max: int) -> Option<int> {
    let body = if s.len() > 0 && s[0] == '+' {
        s.skip(1)
    } else {
        s
    };
    if body.len() > 0 && all_digits(body) && digits_value(body) <= max {
        Some(digits_value(body))
    } else {
        None
    }
}

pub fn parse_natural(s: &[char], max: u32) -> (r: Option<u32>)
    ensures
        match r {
            Some(v) => natural_up_to(s@, max as int) == Some(v as int),
            None => natural_up_to(s@, max as int) is None,
        },
{
    if s.len() == 0 {
        return None;
    }
    let from: usize = if s[0] == '+' { 1 } else { 0 };
    proof {
        assert(s@.skip(0) =~= s@);
    }
    match magnitude(s, from) {
        None => None,
        Some(v) => if v <= max as i128 {
            Some(v as u32)
        } else {
            None
        },
    }
}

/// A signed number that fits 32 bits.
pub open spec fn parsed_i32(s: Seq<char>) -> Option<i32> {
    match integer(s) {
        Some(v) => if i32::MIN <= v <= i32::MAX {
            Some(v as i32)
        } else {
            None
        },
        None => None,
    }
}

pub fn parse_i32(text: &str) -> (r: Option<i32>)
    ensures
        r == parsed_i32(text@),
{
    match parse_i64(text) {
        Some(v) => if -2_147_483_648 <= v && v <= 2_147_483_647 {
            Some(v as i32)
        } else {
            None
        },
        None => None,
    }
}

/// A number is read from digits alone, with one sign before them at most: the
/// digits count in tens, and a minus makes it negative. What does not fit is
/// not read.
pub proof fn numbers_are_read_in_tens(s: Seq<char>, c: char)
    requires
        s.len() > 0,
        all_digits(s),
    ensures
        '0' <= c <= '9' ==> digits_value(s.push(c)) == digits_value(s) * 10 + (c as int
            - '0' as int) && all_digits(s.push(c)),
        !('0' <= c <= '9') ==> !all_digits(s.push(c)),
        digits_value(s) <= i64::MAX ==> (parsed_i64(s) matches Some(v) && v == digits_value(s)),
        digits_value(s) > i64::MAX ==> parsed_i64(s) is None,
        digits_value(s) <= i64::MAX ==> (parsed_i64(seq!['-'] + s) matches Some(v) && v
            == -digits_value(s)),
        digits_value(s) <= i64::MAX ==> (parsed_i64(seq!['+'] + s) matches Some(v) && v
            == digits_value(s)),
        digits_value(s) <= i32::MAX ==> (parsed_i32(s) matches Some(v) && v == digits_value(s)),
        digits_value(s) > i32::MAX ==> parsed_i32(s) is None,
        forall|max: int|
            digits_value(s) <= max ==> #[trigger] natural_up_to(s, max) == Some(digits_value(s)),
        forall|max: int| digits_value(s) > max ==> (#[trigger] natural_up_to(s, max)) is None,
{
    lemma_digits_value_bounds(s);
    let longer = s.push(c);
    assert(longer.drop_last() =~= s);
    assert forall|i: int| 0 <= i < s.len() implies is_digit(#[trigger] longer[i]) by {
        assert(is_digit(s[i]));
    }
    assert(longer[longer.len() - 1] == c);
    if '0' <= c <= '9' {
        assert(all_digits(longer));
    }
    assert(is_digit(s[0]));
    assert((seq!['-'] + s).skip(1) =~= s);
    assert((seq!['+'] + s).skip(1) =~= s);
    assert((seq!['-'] + s)[0] == '-');
    assert((seq!['+'] + s)[0] == '+');
}

/// What holds anything but digits behind its sign is no number.
pub proof fn only_digits_are_numbers(s: Seq<char>, i: int)
    requires
        0 <= i < s.len(),
        !('0' <= s[i] <= '9'),
        i > 0 || (s[0] != '-' && s[0] != '+'),
    ensures
        parsed_i64(s) is None,
        parsed_i32(s) is None,
        forall|max: int| (#[trigger] natural_up_to(s, max)) is None,
{
    assert(!is_digit(s[i]));
    if i > 0 {
        assert(s.skip(1)[i - 1] == s[i]);
    }
}

/// Negative numbers are read down to the least that fits, and no further.
pub proof fn the_least_number_is_read(s: Seq<char>)
    requires
        s.len() > 0,
        all_digits(s),
    ensures
        digits_value(s) <= i64::MAX + 1 ==> (parsed_i64(seq!['-'] + s) matches Some(v) && v
            == -digits_value(s)),
        digits_value(s) > i64::MAX + 1 ==> parsed_i64(seq!['-'] + s) is None,
        digits_value(s) <= i32::MAX + 1 ==> (parsed_i32(seq!['-'] + s) matches Some(v) && v
            == -digits_value(s)),
        digits_value(s) > i32::MAX + 1 ==> parsed_i32(seq!['-'] + s) is None,
{
    lemma_digits_value_bounds(s);
    assert((seq!['-'] + s).skip(1) =~= s);
    assert((seq!['-'] + s)[0] == '-');
}

} // verus!
