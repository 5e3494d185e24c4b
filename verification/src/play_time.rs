//! Lengths and moments of a recording, as feeds write them: in seconds, or as
//! hours, minutes and seconds. The feed parser takes the digits of any script
//! for digits, and then reads only the ordinary ones.
//!
//! Texts are sequences of code points here.

use vstd::prelude::*;

verus! {

/// The code point is a decimal digit of some script.
pub open spec fn decimal(c: u32) -> bool {
    (0x30 <= c <= 0x39) || (0x660 <= c <= 0x669) || (0x6f0 <= c <= 0x6f9)
        || (0x7c0 <= c <= 0x7c9) || (0x966 <= c <= 0x96f) || (0x9e6 <= c <= 0x9ef)
        || (0xa66 <= c <= 0xa6f) || (0xae6 <= c <= 0xaef) || (0xb66 <= c <= 0xb6f)
        || (0xbe6 <= c <= 0xbef) || (0xc66 <= c <= 0xc6f) || (0xce6 <= c <= 0xcef)
        || (0xd66 <= c <= 0xd6f) || (0xde6 <= c <= 0xdef) || (0xe50 <= c <= 0xe59)
        || (0xed0 <= c <= 0xed9) || (0xf20 <= c <= 0xf29) || (0x1040 <= c <= 0x1049)
        || (0x1090 <= c <= 0x1099) || (0x17e0 <= c <= 0x17e9) || (0x1810 <= c <= 0x1819)
        || (0x1946 <= c <= 0x194f) || (0x19d0 <= c <= 0x19d9) || (0x1a80 <= c <= 0x1a89)
        || (0x1a90 <= c <= 0x1a99) || (0x1b50 <= c <= 0x1b59) || (0x1bb0 <= c <= 0x1bb9)
        || (0x1c40 <= c <= 0x1c49) || (0x1c50 <= c <= 0x1c59) || (0xa620 <= c <= 0xa629)
        || (0xa8d0 <= c <= 0xa8d9) || (0xa900 <= c <= 0xa909) || (0xa9d0 <= c <= 0xa9d9)
        || (0xa9f0 <= c <= 0xa9f9) || (0xaa50 <= c <= 0xaa59) || (0xabf0 <= c <= 0xabf9)
        || (0xff10 <= c <= 0xff19) || (0x104a0 <= c <= 0x104a9) || (0x10d30 <= c <= 0x10d39)
        || (0x10d40 <= c <= 0x10d49) || (0x11066 <= c <= 0x1106f) || (0x110f0 <= c <= 0x110f9)
        || (0x11136 <= c <= 0x1113f) || (0x111d0 <= c <= 0x111d9) || (0x112f0 <= c <= 0x112f9)
        || (0x11450 <= c <= 0x11459) || (0x114d0 <= c <= 0x114d9) || (0x11650 <= c <= 0x11659)
        || (0x116c0 <= c <= 0x116c9) || (0x116d0 <= c <= 0x116e3) || (0x11730 <= c <= 0x11739)
        || (0x118e0 <= c <= 0x118e9) || (0x11950 <= c <= 0x11959) || (0x11bf0 <= c <= 0x11bf9)
        || (0x11c50 <= c <= 0x11c59) || (0x11d50 <= c <= 0x11d59) || (0x11da0 <= c <= 0x11da9)
        || (0x11f50 <= c <= 0x11f59) || (0x16130 <= c <= 0x16139) || (0x16a60 <= c <= 0x16a69)
        || (0x16ac0 <= c <= 0x16ac9) || (0x16b50 <= c <= 0x16b59) || (0x16d70 <= c <= 0x16d79)
        || (0x1ccf0 <= c <= 0x1ccf9) || (0x1d7ce <= c <= 0x1d7ff) || (0x1e140 <= c <= 0x1e149)
        || (0x1e2f0 <= c <= 0x1e2f9) || (0x1e4f0 <= c <= 0x1e4f9) || (0x1e5f1 <= c <= 0x1e5fa)
        || (0x1e950 <= c <= 0x1e959) || (0x1fbf0 <= c <= 0x1fbf9)
}

pub fn is_decimal(c: u32) -> (r: bool)
    ensures
        r == decimal(c),
{
    (0x30 <= c && c <= 0x39) || (0x660 <= c && c <= 0x669) || (0x6f0 <= c && c <= 0x6f9)
        || (0x7c0 <= c && c <= 0x7c9) || (0x966 <= c && c <= 0x96f) || (0x9e6 <= c && c <= 0x9ef)
        || (0xa66 <= c && c <= 0xa6f) || (0xae6 <= c && c <= 0xaef) || (0xb66 <= c && c <= 0xb6f)
        || (0xbe6 <= c && c <= 0xbef) || (0xc66 <= c && c <= 0xc6f) || (0xce6 <= c && c <= 0xcef)
        || (0xd66 <= c && c <= 0xd6f) || (0xde6 <= c && c <= 0xdef) || (0xe50 <= c && c <= 0xe59)
        || (0xed0 <= c && c <= 0xed9) || (0xf20 <= c && c <= 0xf29)
        || (0x1040 <= c && c <= 0x1049) || (0x1090 <= c && c <= 0x1099)
        || (0x17e0 <= c && c <= 0x17e9) || (0x1810 <= c && c <= 0x1819)
        || (0x1946 <= c && c <= 0x194f) || (0x19d0 <= c && c <= 0x19d9)
        || (0x1a80 <= c && c <= 0x1a89) || (0x1a90 <= c && c <= 0x1a99)
        || (0x1b50 <= c && c <= 0x1b59) || (0x1bb0 <= c && c <= 0x1bb9)
        || (0x1c40 <= c && c <= 0x1c49) || (0x1c50 <= c && c <= 0x1c59)
        || (0xa620 <= c && c <= 0xa629) || (0xa8d0 <= c && c <= 0xa8d9)
        || (0xa900 <= c && c <= 0xa909) || (0xa9d0 <= c && c <= 0xa9d9)
        || (0xa9f0 <= c && c <= 0xa9f9) || (0xaa50 <= c && c <= 0xaa59)
        || (0xabf0 <= c && c <= 0xabf9) || (0xff10 <= c && c <= 0xff19)
        || (0x104a0 <= c && c <= 0x104a9) || (0x10d30 <= c && c <= 0x10d39)
        || (0x10d40 <= c && c <= 0x10d49) || (0x11066 <= c && c <= 0x1106f)
        || (0x110f0 <= c && c <= 0x110f9) || (0x11136 <= c && c <= 0x1113f)
        || (0x111d0 <= c && c <= 0x111d9) || (0x112f0 <= c && c <= 0x112f9)
        || (0x11450 <= c && c <= 0x11459) || (0x114d0 <= c && c <= 0x114d9)
        || (0x11650 <= c && c <= 0x11659) || (0x116c0 <= c && c <= 0x116c9)
        || (0x116d0 <= c && c <= 0x116e3) || (0x11730 <= c && c <= 0x11739)
        || (0x118e0 <= c && c <= 0x118e9) || (0x11950 <= c && c <= 0x11959)
        || (0x11bf0 <= c && c <= 0x11bf9) || (0x11c50 <= c && c <= 0x11c59)
        || (0x11d50 <= c && c <= 0x11d59) || (0x11da0 <= c && c <= 0x11da9)
        || (0x11f50 <= c && c <= 0x11f59) || (0x16130 <= c && c <= 0x16139)
        || (0x16a60 <= c && c <= 0x16a69) || (0x16ac0 <= c && c <= 0x16ac9)
        || (0x16b50 <= c && c <= 0x16b59) || (0x16d70 <= c && c <= 0x16d79)
        || (0x1ccf0 <= c && c <= 0x1ccf9) || (0x1d7ce <= c && c <= 0x1d7ff)
        || (0x1e140 <= c && c <= 0x1e149) || (0x1e2f0 <= c && c <= 0x1e2f9)
        || (0x1e4f0 <= c && c <= 0x1e4f9) || (0x1e5f1 <= c && c <= 0x1e5fa)
        || (0x1e950 <= c && c <= 0x1e959) || (0x1fbf0 <= c && c <= 0x1fbf9)
}

pub open spec fn ordinary(c: u32) -> bool {
    0x30 <= c <= 0x39
}

/// Where the digits that stand from `i` on end.
pub open spec fn run_end(t: Seq<u32>, i: int) -> int
    decreases t.len() - i,
{
    if 0 <= i < t.len() && decimal(t[i]) {
        run_end(t, i + 1)
    } else {
        i
    }
}

/// Where the first digit at or after `i` stands; the end where there is none.
pub open spec fn first_digit(t: Seq<u32>, i: int) -> int
    decreases t.len() - i,
{
    if 0 <= i < t.len() && !decimal(t[i]) {
        first_digit(t, i + 1)
    } else {
        i
    }
}

/// Two digits stand at `i`.
pub open spec fn pair_at(t: Seq<u32>, i: int) -> bool {
    0 <= i && i + 1 < t.len() && decimal(t[i]) && decimal(t[i + 1])
}

/// Minutes and seconds follow the hours that end at `e`.
pub open spec fn clock_at(t: Seq<u32>, e: int) -> bool {
    0 <= e && e + 5 < t.len() && t[e] == 0x3a && pair_at(t, e + 1) && t[e + 3] == 0x3a && pair_at(
        t,
        e + 4,
    )
}

/// The digits from `i` to `e` are ordinary ones.
pub open spec fn ordinary_run(t: Seq<u32>, i: int, e: int) -> bool {
    forall|k: int| i <= k < e ==> ordinary(#[trigger] t[k])
}

/// The number that the digits from `i` to `e` write.
pub open spec fn number_at(t: Seq<u32>, i: int, e: int) -> int
    decreases e - i,
{
    if e <= i {
        0
    } else {
        number_at(t, i, e - 1) * 10 + (t[e - 1] - 0x30)
    }
}

/// A fraction stands at `i`.
pub open spec fn fraction_at(t: Seq<u32>, i: int) -> bool {
    0 <= i && i + 1 < t.len() && t[i] == 0x2e && decimal(t[i + 1])
}

/// So many seconds, with the fraction that may follow at `i`, can be read.
pub open spec fn span_reads(t: Seq<u32>, seconds: int, i: int) -> bool {
    if fraction_at(t, i) {
        seconds < u64::MAX && ordinary_run(t, i + 1, run_end(t, i + 1))
    } else {
        seconds <= u64::MAX
    }
}

/// Hours from `i` to `e`, with minutes and seconds behind them, can be read.
pub open spec fn clock_reads(t: Seq<u32>, i: int, e: int) -> bool {
    ordinary_run(t, i, e) && ordinary_run(t, e + 1, e + 3) && ordinary_run(t, e + 4, e + 6)
        && span_reads(
        t,
        number_at(t, i, e) * 3600 + number_at(t, e + 1, e + 3) * 60 + number_at(t, e + 4, e + 6),
        e + 6,
    )
}

/// Seconds from `i` to `e` can be read.
pub open spec fn seconds_read(t: Seq<u32>, i: int, e: int) -> bool {
    ordinary_run(t, i, e) && span_reads(t, number_at(t, i, e), e)
}

/// The first time of day at or after `i` can be read; where there is none, so
/// can the number at `first`.
pub open spec fn time_reads(t: Seq<u32>, i: int, first: int) -> bool
    decreases t.len() - i,
{
    let start = first_digit(t, i);
    if i < 0 || start < i || start >= t.len() {
        first >= t.len() || seconds_read(t, first, run_end(t, first))
    } else {
        let e = run_end(t, start);
        if clock_at(t, e) {
            clock_reads(t, start, e)
        } else if e <= i || e > t.len() {
            true
        } else {
            time_reads(t, e, first)
        }
    }
}

/// The parser reads the text as a length or finds none in it.
pub open spec fn play_time_reads(t: Seq<u32>) -> bool {
    time_reads(t, 0, first_digit(t, 0))
}

proof fn lemma_run_end(t: Seq<u32>, i: int)
    requires
        0 <= i <= t.len(),
    ensures
        i <= run_end(t, i) <= t.len(),
        i < t.len() && decimal(t[i]) ==> run_end(t, i) > i,
        forall|k: int| i <= k < run_end(t, i) ==> decimal(#[trigger] t[k]),
    decreases t.len() - i,
{
    if i < t.len() && decimal(t[i]) {
        lemma_run_end(t, i + 1);
    }
}

fn find_run_end(t: &[u32], from: usize) -> (r: usize)
    requires
        from <= t.len(),
    ensures
        r == run_end(t@, from as int),
        from <= r <= t.len(),
{
    let mut i: usize = from;
    while i < t.len() && is_decimal(t[i])
        invariant
            from <= i <= t.len(),
            run_end(t@, from as int) == run_end(t@, i as int),
        decreases t.len() - i,
    {
        i += 1;
    }
    i
}

fn find_digit(t: &[u32], from: usize) -> (r: usize)
    requires
        from <= t.len(),
    ensures
        r == first_digit(t@, from as int),
        from <= r <= t.len(),
{
    let mut i: usize = from;
    while i < t.len() && !is_decimal(t[i])
        invariant
            from <= i <= t.len(),
            first_digit(t@, from as int) == first_digit(t@, i as int),
        decreases t.len() - i,
    {
        i += 1;
    }
    i
}

fn is_ordinary_run(t: &[u32], from: usize, to: usize) -> (r: bool)
    requires
        from <= to <= t.len(),
    ensures
        r == ordinary_run(t@, from as int, to as int),
{
    let mut i: usize = from;
    while i < to
        invariant
            from <= i <= to <= t.len(),
            ordinary_run(t@, from as int, i as int),
        decreases to - i,
    {
        if t[i] < 0x30 || t[i] > 0x39 {
            proof {
                assert(!ordinary(t@[i as int]));
            }
            return false;
        }
        i += 1;
    }
    true
}

proof fn lemma_number_grows(t: Seq<u32>, i: int, e: int, to: int)
    requires
        0 <= i <= e <= to <= t.len(),
        ordinary_run(t, i, to),
    ensures
        0 <= number_at(t, i, e) <= number_at(t, i, to),
    decreases to - i, to - e,
{
    if i < e {
        lemma_number_grows(t, i, i, e - 1);
        lemma_number_grows(t, i, e - 1, e - 1);
        assert(ordinary(t[e - 1]));
    }
    if e < to {
        lemma_number_grows(t, i, e, to - 1);
        assert(ordinary(t[to - 1]));
    }
}

/// The number from `from` to `to`; `None` where it is beyond 64 bits.
fn read_number(t: &[u32], from: usize, to: usize) -> (r: Option<u64>)
    requires
        from <= to <= t.len(),
        ordinary_run(t@, from as int, to as int),
    ensures
        match r {
            Some(n) => n == number_at(t@, from as int, to as int),
            None => number_at(t@, from as int, to as int) > u64::MAX,
        },
{
    let mut n: u64 = 0;
    let mut i: usize = from;
    while i < to
        invariant
            from <= i <= to <= t.len(),
            ordinary_run(t@, from as int, to as int),
            n == number_at(t@, from as int, i as int),
        decreases to - i,
    {
        proof {
            assert(ordinary(t@[i as int]));
        }
        let digit: u64 = (t[i] - 0x30) as u64;
        if n > (u64::MAX - digit) / 10 {
            proof {
                lemma_number_grows(t@, from as int, i + 1, to as int);
                assert(number_at(t@, from as int, i + 1) == n * 10 + digit);
            }
            return None;
        }
        n = n * 10 + digit;
        i += 1;
    }
    Some(n)
}

fn span_can_be_read(t: &[u32], seconds: Option<u64>, at: usize) -> (r: bool)
    requires
        at <= t.len(),
    ensures
        seconds matches Some(n) ==> r == span_reads(t@, n as int, at as int),
        seconds is None ==> !r,
{
    match seconds {
        None => false,
        Some(n) => {
            if t.len() - at > 1 && t[at] == 0x2e && is_decimal(t[at + 1]) {
                let end = find_run_end(t, at + 1);
                n < u64::MAX && is_ordinary_run(t, at + 1, end)
            } else {
                true
            }
        },
    }
}

fn is_clock_at(t: &[u32], e: usize) -> (r: bool)
    requires
        e <= t.len(),
    ensures
        r == clock_at(t@, e as int),
{
    t.len() - e > 5 && t[e] == 0x3a && is_decimal(t[e + 1]) && is_decimal(t[e + 2]) && t[e + 3]
        == 0x3a && is_decimal(t[e + 4]) && is_decimal(t[e + 5])
}

proof fn lemma_pair(t: Seq<u32>, i: int)
    requires
        0 <= i,
        i + 2 <= t.len(),
        ordinary_run(t, i, i + 2),
    ensures
        number_at(t, i, i + 2) == (t[i] - 0x30) * 10 + (t[i + 1] - 0x30),
        0 <= number_at(t, i, i + 2) <= 99,
{
    reveal_with_fuel(number_at, 3);
    assert(ordinary(t[i]) && ordinary(t[i + 1]));
}

fn clock_can_be_read(t: &[u32], from: usize, e: usize) -> (r: bool)
    requires
        from <= e,
        e + 6 <= t.len(),
    ensures
        r == clock_reads(t@, from as int, e as int),
{
    if !is_ordinary_run(t, from, e) || !is_ordinary_run(t, e + 1, e + 3) || !is_ordinary_run(
        t,
        e + 4,
        e + 6,
    ) {
        return false;
    }
    proof {
        lemma_pair(t@, e + 1);
        lemma_pair(t@, e + 4);
        assert(ordinary(t@[e + 1]) && ordinary(t@[e + 2]) && ordinary(t@[e + 4]) && ordinary(
            t@[e + 5],
        ));
        lemma_number_grows(t@, from as int, from as int, e as int);
    }
    let minutes: u64 = ((t[e + 1] - 0x30) * 10 + (t[e + 2] - 0x30)) as u64;
    let seconds: u64 = ((t[e + 4] - 0x30) * 10 + (t[e + 5] - 0x30)) as u64;
    let rest: u64 = minutes * 60 + seconds;
    let total: Option<u64> = match read_number(t, from, e) {
        None => None,
        Some(hours) => if hours > (u64::MAX - rest) / 3600 {
            None
        } else {
            Some(hours * 3600 + rest)
        },
    };
    span_can_be_read(t, total, e + 6)
}

fn seconds_can_be_read(t: &[u32], from: usize, e: usize) -> (r: bool)
    requires
        from <= e <= t.len(),
    ensures
        r == seconds_read(t@, from as int, e as int),
{
    if !is_ordinary_run(t, from, e) {
        return false;
    }
    let total = read_number(t, from, e);
    span_can_be_read(t, total, e)
}

/// Whether the parser reads the text as a length or finds none in it.
pub fn can_be_read(t: &[u32]) -> (r: bool)
    ensures
        r == play_time_reads(t@),
{
    let first = find_digit(t, 0);
    let mut i: usize = 0;
    loop
        invariant
            i <= t.len(),
            first == first_digit(t@, 0),
            first <= t.len(),
            play_time_reads(t@) == time_reads(t@, i as int, first as int),
        decreases t.len() - i,
    {
        let start = find_digit(t, i);
        if start >= t.len() {
            if first >= t.len() {
                return true;
            }
            let e = find_run_end(t, first);
            return seconds_can_be_read(t, first, e);
        }
        let e = find_run_end(t, start);
        proof {
            lemma_first_digit(t@, i as int);
            lemma_run_end(t@, start as int);
        }
        if is_clock_at(t, e) {
            return clock_can_be_read(t, start, e);
        }
        i = e;
    }
}

proof fn lemma_first_digit(t: Seq<u32>, i: int)
    requires
        0 <= i <= t.len(),
    ensures
        i <= first_digit(t, i) <= t.len(),
        first_digit(t, i) < t.len() ==> decimal(t[first_digit(t, i)]),
    decreases t.len() - i,
{
    if i < t.len() && !decimal(t[i]) {
        lemma_first_digit(t, i + 1);
    }
}

// ---- what is read -------------------------------------------------------------------

proof fn lemma_digits_to_the_end(t: Seq<u32>, i: int)
    requires
        0 <= i <= t.len(),
        forall|k: int| i <= k < t.len() ==> decimal(#[trigger] t[k]),
    ensures
        run_end(t, i) == t.len(),
    decreases t.len() - i,
{
    if i < t.len() {
        lemma_digits_to_the_end(t, i + 1);
    }
}

/// A text without digits tells no length, and is read as that.
pub proof fn texts_without_digits_are_read(t: Seq<u32>)
    requires
        forall|k: int| 0 <= k < t.len() ==> !decimal(#[trigger] t[k]),
    ensures
        play_time_reads(t),
{
    lemma_first_digit(t, 0);
}

/// A text of digits alone is read exactly where they are the ten ordinary ones
/// and the number of seconds fits.
pub proof fn plain_seconds_are_read(t: Seq<u32>)
    requires
        t.len() > 0,
        forall|k: int| 0 <= k < t.len() ==> decimal(#[trigger] t[k]),
    ensures
        play_time_reads(t) <==> (forall|k: int|
            0 <= k < t.len() ==> 0x30 <= #[trigger] t[k] <= 0x39) && number_at(
            t,
            0,
            t.len() as int,
        ) <= u64::MAX,
{
    lemma_digits_to_the_end(t, 0);
    let l = t.len() as int;
    assert(decimal(t[0]));
    assert(first_digit(t, 0) == 0);
    assert(run_end(t, 0) == l);
    assert(!clock_at(t, l));
    assert(first_digit(t, l) == l);
    reveal_with_fuel(time_reads, 3);
    assert(time_reads(t, l, 0) == seconds_read(t, 0, l));
    assert(time_reads(t, 0, 0) == time_reads(t, l, 0));
    assert(!fraction_at(t, l));
    assert forall|k: int| 0 <= k < l implies ordinary(#[trigger] t[k]) == (0x30 <= t[k] <= 0x39) by {}
}

/// The digits of a length count in tens.
pub proof fn lengths_count_in_tens(t: Seq<u32>, i: int, e: int)
    requires
        0 <= i <= e < t.len(),
    ensures
        number_at(t, i, e + 1) == number_at(t, i, e) * 10 + (t[e] - 0x30),
        number_at(t, i, i) == 0,
{
}

} // verus!
