//! Settings that users write down.

use vstd::prelude::*;

use crate::number::{parse_i64, parsed_i64};
use crate::text::{chars_of, copy_range, string_of, trim, trim_chars};

verus! {

/// How many seconds a unit of time has.
pub open spec fn unit_seconds(unit: char) -> Option<int> {
    if unit == 's' {
        Some(1)
    } else if unit == 'm' {
        Some(60)
    } else if unit == 'h' {
        Some(3600)
    } else if unit == 'd' {
        Some(86_400)
    } else {
        None
    }
}

/// The seconds of a duration such as `30m`: a whole number and a unit, which
/// is `s`, `m`, `h` or `d`.
pub open spec fn duration_seconds(text: Seq<char>) -> Option<i64> {
    let inner = trim(text);
    if inner.len() == 0 {
        None
    } else {
        match (parsed_i64(inner.drop_last()), unit_seconds(inner.last())) {
            (Some(n), Some(unit)) => if i64::MIN <= n * unit <= i64::MAX {
                Some((n * unit) as i64)
            } else {
                None
            },
            _ => None,
        }
    }
}

/// Reads a duration in seconds.
pub fn parse_duration(text: &str) -> (r: Option<i64>)
    ensures
        r == duration_seconds(text@),
{
    let inner = trim_chars(&chars_of(text));
    if inner.len() == 0 {
        return None;
    }
    let last: usize = inner.len() - 1;
    let digits = copy_range(&inner, 0, last);
    proof {
        assert(digits@ =~= inner@.drop_last());
    }
    let n: i64 = match parse_i64(&string_of(&digits)) {
        Some(value) => value,
        None => {
            return None;
        },
    };
    let unit: i64 = match inner[last] {
        's' => 1,
        'm' => 60,
        'h' => 3600,
        'd' => 86_400,
        _ => {
            return None;
        },
    };
    n.checked_mul(unit)
}

/// A duration is a number and one unit: seconds, minutes, hours or days of as
/// many seconds as they have. Blanks around it do not count; anything else, and
/// what does not fit, is none.
pub proof fn durations_are_counted_in_seconds(text: Seq<char>, n: i64)
    requires
        trim(text).len() > 0,
        parsed_i64(trim(text).drop_last()) == Some(n),
    ensures
        trim(text).last() == 's' ==> duration_seconds(text) == Some(n),
        trim(text).last() == 'm' && i64::MIN <= n * 60 <= i64::MAX ==> (duration_seconds(
            text,
        ) matches Some(seconds) && seconds == n * 60),
        trim(text).last() == 'h' && i64::MIN <= n * 3600 <= i64::MAX ==> (duration_seconds(
            text,
        ) matches Some(seconds) && seconds == n * 3600),
        trim(text).last() == 'd' && i64::MIN <= n * 86_400 <= i64::MAX ==> (duration_seconds(
            text,
        ) matches Some(seconds) && seconds == n * 86_400),
        trim(text).last() != 's' && trim(text).last() != 'm' && trim(text).last() != 'h' && trim(
            text,
        ).last() != 'd' ==> duration_seconds(text) is None,
{
}

/// Without a number there is no duration.
pub proof fn durations_need_a_number(text: Seq<char>)
    requires
        trim(text).len() == 0 || parsed_i64(trim(text).drop_last()) is None,
    ensures
        duration_seconds(text) is None,
{
}

} // verus!
