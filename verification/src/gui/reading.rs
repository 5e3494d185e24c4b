//! Marking articles as read once they have been visible for a while.

use vstd::prelude::*;

verus! {

/// How long an article has to be visible, in milliseconds.
pub const AUTO_READ_DELAY: u64 = 10_000;

/// The time that an article has been visible without a break. It stops while
/// the article cannot be read, for example behind a modal, and starts afresh
/// with another article. Times are milliseconds of the desktop's clock.
#[derive(Debug, Clone, Copy, PartialEq, Eq, Structural)]
pub struct DelayedReadMarking {
    pub article_id: Option<i64>,
    pub elapsed: u64,
    pub last_tick: Option<u64>,
}

pub open spec fn unwatched(article_id: Option<i64>) -> DelayedReadMarking {
    DelayedReadMarking { article_id, elapsed: 0, last_tick: None }
}

/// The time since the last look at the article.
pub open spec fn since(last_tick: Option<u64>, now: u64) -> int {
    match last_tick {
        Some(last) => if last <= now {
            now - last
        } else {
            0
        },
        None => 0,
    }
}

/// The tracker after a look at the article, and whether it is now read.
pub open spec fn observed(
    d: DelayedReadMarking,
    article_id: Option<i64>,
    eligible: bool,
    now: u64,
) -> (DelayedReadMarking, bool) {
    let own = if d.article_id == article_id {
        d
    } else {
        unwatched(article_id)
    };
    if article_id is None || !eligible {
        (DelayedReadMarking { last_tick: None, ..own }, false)
    } else {
        let total = own.elapsed + since(own.last_tick, now);
        if total >= AUTO_READ_DELAY {
            (DelayedReadMarking { elapsed: 0, last_tick: None, ..own }, true)
        } else {
            (DelayedReadMarking { elapsed: total as u64, last_tick: Some(now), ..own }, false)
        }
    }
}

impl Default for DelayedReadMarking {
    fn default() -> (r: DelayedReadMarking)
        ensures
            r == unwatched(None),
    {
        DelayedReadMarking { article_id: None, elapsed: 0, last_tick: None }
    }
}

impl DelayedReadMarking {
    pub fn reset_for(&mut self, article_id: Option<i64>)
        ensures
            *final(self) == unwatched(article_id),
    {
        self.article_id = article_id;
        self.elapsed = 0;
        self.last_tick = None;
    }

    pub fn observe(&mut self, article_id: Option<i64>, eligible: bool, now: u64) -> (r: bool)
        ensures
            (*final(self), r) == observed(*old(self), article_id, eligible, now),
    {
        let same: bool = match (self.article_id, article_id) {
            (Some(a), Some(b)) => a == b,
            (None, None) => true,
            _ => false,
        };
        if !same {
            self.reset_for(article_id);
        }
        if article_id.is_none() || !eligible {
            self.last_tick = None;
            return false;
        }
        let passed: u64 = match self.last_tick {
            Some(last) => if last <= now {
                now - last
            } else {
                0
            },
            None => 0,
        };
        let total: u64 = if passed <= u64::MAX - self.elapsed {
            self.elapsed + passed
        } else {
            u64::MAX
        };
        if total >= AUTO_READ_DELAY {
            self.elapsed = 0;
            self.last_tick = None;
            true
        } else {
            self.elapsed = total;
            self.last_tick = Some(now);
            false
        }
    }
}

/// An article counts as read only after it has been visible for the whole
/// delay: another article starts from nothing, and time behind a modal does
/// not count.
pub proof fn reading_takes_the_whole_delay(
    d: DelayedReadMarking,
    article: i64,
    eligible: bool,
    then: u64,
    now: u64,
)
    requires
        then <= now,
    ensures
        d.article_id != Some(article) ==> !observed(d, Some(article), eligible, now).1 && observed(
            d,
            Some(article),
            eligible,
            now,
        ).0.elapsed == 0,
        !observed(d, Some(article), false, now).1,
        ({
            let blocked = observed(d, Some(article), false, then).0;
            d.article_id == Some(article) && d.elapsed < AUTO_READ_DELAY ==> observed(
                blocked,
                Some(article),
                true,
                now,
            ).0.elapsed == d.elapsed
        }),
        ({
            let begun = observed(unwatched(None), Some(article), true, then).0;
            observed(begun, Some(article), true, now).1 <==> now - then >= AUTO_READ_DELAY
        }),
{
}

/// An article is marked as read exactly where it was read, at a stretch or in
/// pieces, for ten seconds in all; the time starts anew for another article and
/// stands still while the article cannot be read.
pub proof fn ten_seconds_of_reading_mark_an_article(
    d: DelayedReadMarking,
    article: i64,
    eligible: bool,
    now: u64,
)
    ensures
        ({
            let (next, marked) = observed(d, Some(article), eligible, now);
            let passed = match d.last_tick {
                Some(last) => if last <= now {
                    now - last
                } else {
                    0
                },
                None => 0,
            };
            &&& next.article_id == Some(article)
            &&& marked <==> eligible && d.article_id == Some(article) && d.elapsed + passed
                >= 10_000
            &&& !eligible ==> next.last_tick is None
            &&& eligible && !marked ==> next.last_tick == Some(now)
            &&& eligible && !marked && d.article_id == Some(article) ==> next.elapsed == d.elapsed
                + passed
            &&& marked ==> next.elapsed == 0
        }),
        !observed(d, None, eligible, now).1,
{
}

} // verus!
