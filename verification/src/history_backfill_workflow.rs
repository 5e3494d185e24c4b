//! Session-bound historical import with automatic archive discovery.
//!
//! A `Backfill` decides what is fetched next and takes in what came back. The
//! fetching, the waiting and the storing are done around it.

use vstd::prelude::*;

use crate::address::{
    archive_addresses, archive_candidates_for, canonical_article_identity, canonical_identity,
    url_parsed, url_with_scheme,
};
use crate::history_discovery::page::{entry_views, Entry, EntryView, FetchedWebClip, PageView};
use crate::history_discovery::pager::{
    advanced, at_next, fetch_refusal, more_pending, page_lists, passed_over, Pager, PagerView,
};
use crate::model::{copy_text, NewArticle, NewArticleView};
use crate::page_metadata::{address_date, date_from_url, extract_metadata, page_metadata};
use crate::text::{
    chars_of, contains, contains_text, holds_text, is_blank, lemma_texts_push, text_opt, texts,
    trim,
};

verus! {

/// How many articles a batch imports at most.
pub const BATCH_SIZE: usize = 50;

/// How many pages a batch reads at most.
pub const PAGES_PER_BATCH: usize = 10;

#[derive(Debug, Clone, Copy, PartialEq, Eq, Structural)]
pub enum BackfillStatus {
    Idle,
    Fetching,
    Paused,
    WaitingNextBatch,
    Completed,
    Failed,
}

#[derive(Debug, Clone)]
pub struct BackfillSnapshot {
    pub status: BackfillStatus,
    pub feed_id: Option<i64>,
    pub discovered: usize,
    pub processed: usize,
    pub inserted: usize,
    pub failed: usize,
    pub batch_size: usize,
    pub has_more: bool,
    pub last_error: Option<String>,
    pub source_description: String,
}

pub ghost struct SnapshotView {
    pub status: BackfillStatus,
    pub feed_id: Option<i64>,
    pub discovered: nat,
    pub processed: nat,
    pub inserted: nat,
    pub failed: nat,
    pub batch_size: nat,
    pub has_more: bool,
    pub last_error: Option<Seq<char>>,
    pub source_description: Seq<char>,
}

impl View for BackfillSnapshot {
    type V = SnapshotView;

    open spec fn view(&self) -> SnapshotView {
        SnapshotView {
            status: self.status,
            feed_id: self.feed_id,
            discovered: self.discovered as nat,
            processed: self.processed as nat,
            inserted: self.inserted as nat,
            failed: self.failed as nat,
            batch_size: self.batch_size as nat,
            has_more: self.has_more,
            last_error: text_opt(self.last_error),
            source_description: self.source_description@,
        }
    }
}

/// An import that is under way.
#[derive(Debug)]
pub struct State {
    pub feed_id: i64,
    pub entries: Vec<Entry>,
    pub seen_urls: Vec<String>,
    pub failed_entries: Vec<Entry>,
    pub cursor: usize,
    pub pager: Pager,
    pub paused: bool,
    pub shutdown: bool,
}

pub ghost struct StateView {
    pub feed_id: i64,
    pub entries: Seq<EntryView>,
    pub seen_urls: Seq<Seq<char>>,
    pub failed_entries: Seq<EntryView>,
    pub cursor: nat,
    pub pager: PagerView,
    pub paused: bool,
    pub shutdown: bool,
}

impl View for State {
    type V = StateView;

    open spec fn view(&self) -> StateView {
        StateView {
            feed_id: self.feed_id,
            entries: entry_views(self.entries@),
            seen_urls: texts(self.seen_urls@),
            failed_entries: entry_views(self.failed_entries@),
            cursor: self.cursor as nat,
            pager: self.pager@,
            paused: self.paused,
            shutdown: self.shutdown,
        }
    }
}

/// What identifies an entry: the article's address, or the feed's own
/// identity where it has none.
pub open spec fn entry_identity(e: EntryView) -> Seq<char> {
    match e.article.url {
        Some(url) => canonical_identity(url),
        None => "id:"@ + e.article.entry_id,
    }
}

pub open spec fn identities(entries: Seq<EntryView>) -> Seq<Seq<char>> {
    entries.map_values(|e: EntryView| entry_identity(e))
}

impl StateView {
    /// The identities that were seen are those of the entries, each once, and
    /// the cursor is within the entries.
    pub open spec fn wf(self) -> bool {
        &&& self.seen_urls == identities(self.entries)
        &&& self.seen_urls.no_duplicates()
        &&& self.cursor <= self.entries.len()
    }
}

/// The state with the entries appended that were not seen before.
pub open spec fn appended(s: StateView, entries: Seq<EntryView>) -> StateView
    decreases entries.len(),
{
    if entries.len() == 0 {
        s
    } else {
        let so_far = appended(s, entries.drop_last());
        let e = entries.last();
        if so_far.seen_urls.contains(entry_identity(e)) {
            so_far
        } else {
            StateView {
                entries: so_far.entries.push(e),
                seen_urls: so_far.seen_urls.push(entry_identity(e)),
                ..so_far
            }
        }
    }
}

fn identity_text(entry: &Entry) -> (r: String)
    ensures
        r@ == entry_identity(entry@),
{
    match &entry.article.url {
        Some(url) => canonical_article_identity(url),
        None => {
            let mut r = "id:".to_owned();
            r.append(&entry.article.entry_id);
            r
        },
    }
}

/// Equivalent feed and archive representations count as one article.
pub fn append_entries(state: &mut State, entries: &[Entry])
    ensures
        final(state)@ == appended(old(state)@, entry_views(entries@)),
{
    let ghost start = state@;
    let ghost all = entry_views(entries@);
    let mut i: usize = 0;
    while i < entries.len()
        invariant
            i <= entries.len(),
            all == entry_views(entries@),
            state@ == appended(start, all.take(i as int)),
        decreases entries.len() - i,
    {
        proof {
            assert(all.take(i + 1).drop_last() =~= all.take(i as int));
            assert(all.take(i + 1).last() == entries@[i as int]@);
        }
        let identity = identity_text(&entries[i]);
        if !holds_text(&state.seen_urls, &identity) {
            let copy = entries[i].copied();
            let ghost known = state.entries@;
            proof {
                lemma_texts_push(state.seen_urls@, identity);
            }
            state.seen_urls.push(identity);
            state.entries.push(copy);
            proof {
                assert(entry_views(state.entries@) =~= entry_views(known).push(copy@));
            }
        }
        i += 1;
    }
    proof {
        assert(all.take(all.len() as int) =~= all);
    }
}

proof fn lemma_appended(s: StateView, entries: Seq<EntryView>)
    requires
        s.wf(),
    ensures
        appended(s, entries).wf(),
        appended(s, entries).cursor == s.cursor,
        appended(s, entries).entries.len() >= s.entries.len(),
        forall|i: int|
            0 <= i < s.entries.len() ==> appended(s, entries).entries[i] == #[trigger] s.entries[i],
        appended(s, entries) == (StateView {
            entries: appended(s, entries).entries,
            seen_urls: appended(s, entries).seen_urls,
            ..s
        }),
    decreases entries.len(),
{
    if entries.len() > 0 {
        lemma_appended(s, entries.drop_last());
        let so_far = appended(s, entries.drop_last());
        let e = entries.last();
        if !so_far.seen_urls.contains(entry_identity(e)) {
            assert(identities(so_far.entries.push(e)) =~= identities(so_far.entries).push(
                entry_identity(e),
            ));
            let after = appended(s, entries).seen_urls;
            assert forall|i: int, j: int| 0 <= i < after.len() && 0 <= j < after.len() && i
                != j implies after[i] != after[j] by {
                assert(so_far.seen_urls.no_duplicates());
            }
        }
    }
}

/// No article takes two places in an import, however often and in whatever
/// form its source lists it, and nothing that was listed moves.
pub proof fn no_article_is_imported_twice(s: StateView, entries: Seq<EntryView>, i: int, j: int)
    requires
        s.wf(),
        0 <= i < j < appended(s, entries).entries.len(),
    ensures
        appended(s, entries).wf(),
        entry_identity(appended(s, entries).entries[i]) != entry_identity(
            appended(s, entries).entries[j],
        ),
        j < s.entries.len() ==> appended(s, entries).entries[j] == s.entries[j],
{
    lemma_appended(s, entries);
    let after = appended(s, entries);
    assert(after.seen_urls[i] == entry_identity(after.entries[i]));
    assert(after.seen_urls[j] == entry_identity(after.entries[j]));
}

proof fn lemma_known_stay_known(s: StateView, entries: Seq<EntryView>)
    ensures
        forall|url: Seq<char>| #[trigger]
            s.seen_urls.contains(url) ==> appended(s, entries).seen_urls.contains(url),
        forall|k: int|
            0 <= k < entries.len() ==> appended(s, entries).seen_urls.contains(
                entry_identity(#[trigger] entries[k]),
            ),
    decreases entries.len(),
{
    if entries.len() > 0 {
        let front = entries.drop_last();
        lemma_known_stay_known(s, front);
        let before = appended(s, front).seen_urls;
        let after = appended(s, entries).seen_urls;
        let last = entry_identity(entries.last());
        assert forall|url: Seq<char>| #[trigger] before.contains(url) implies after.contains(url) by {
            let i = choose|i: int| 0 <= i < before.len() && before[i] == url;
            assert(after[i] == url);
        }
        assert(after.contains(last)) by {
            if !before.contains(last) {
                assert(after[before.len() as int] == last);
            }
        }
        assert forall|k: int| 0 <= k < entries.len() implies after.contains(
            entry_identity(#[trigger] entries[k]),
        ) by {
            if k < front.len() {
                assert(front[k] == entries[k]);
                assert(before.contains(entry_identity(front[k])));
            }
        }
    }
}

proof fn lemma_known_change_nothing(s: StateView, entries: Seq<EntryView>)
    requires
        forall|k: int|
            0 <= k < entries.len() ==> s.seen_urls.contains(entry_identity(#[trigger] entries[k])),
    ensures
        appended(s, entries) == s,
    decreases entries.len(),
{
    if entries.len() > 0 {
        let front = entries.drop_last();
        assert forall|k: int| 0 <= k < front.len() implies s.seen_urls.contains(
            entry_identity(#[trigger] front[k]),
        ) by {
            assert(front[k] == entries[k]);
        }
        lemma_known_change_nothing(s, front);
        assert(s.seen_urls.contains(entry_identity(entries[entries.len() - 1])));
    }
}

/// Listing the same entries again changes nothing.
pub proof fn listing_again_changes_nothing(s: StateView, entries: Seq<EntryView>)
    ensures
        appended(appended(s, entries), entries) == appended(s, entries),
{
    lemma_known_stay_known(s, entries);
    lemma_known_change_nothing(appended(s, entries), entries);
}

// ---- the whole import --------------------------------------------------------

/// The import and what is shown of it.
#[derive(Debug)]
pub struct Backfill {
    pub snapshot: BackfillSnapshot,
    pub state: Option<State>,
}

pub ghost struct BackfillView {
    pub snapshot: SnapshotView,
    pub state: Option<StateView>,
}

impl View for Backfill {
    type V = BackfillView;

    open spec fn view(&self) -> BackfillView {
        BackfillView {
            snapshot: self.snapshot@,
            state: match self.state {
                Some(state) => Some(state@),
                None => None,
            },
        }
    }
}

/// What is still to be imported.
pub open spec fn unfinished(s: StateView) -> bool {
    s.cursor < s.entries.len() || more_pending(s.pager)
}

pub open spec fn resting_status(has_more: bool) -> BackfillStatus {
    if has_more {
        BackfillStatus::WaitingNextBatch
    } else {
        BackfillStatus::Completed
    }
}

/// The part of the import that a batch covers.
#[derive(Debug, Clone, Copy, PartialEq, Eq, Structural)]
pub struct Batch {
    pub target: usize,
    pub pages: usize,
}

#[derive(Debug, Clone, Copy, PartialEq, Eq, Structural)]
pub enum BatchStep {
    FetchPage,
    FetchArticle,
    Finish,
}

/// Where a batch ends.
pub open spec fn batch_end(cursor: nat) -> nat {
    if cursor + BATCH_SIZE <= usize::MAX {
        cursor + BATCH_SIZE as nat
    } else {
        usize::MAX as nat
    }
}

/// What a batch does next: pages until enough entries are known, then the
/// articles one by one.
pub open spec fn batch_step_of(s: StateView, batch: Batch) -> BatchStep {
    if s.entries.len() < batch.target && more_pending(s.pager) && batch.pages < PAGES_PER_BATCH {
        BatchStep::FetchPage
    } else if s.cursor < s.entries.len() && s.cursor < batch.target {
        BatchStep::FetchArticle
    } else {
        BatchStep::Finish
    }
}

pub open spec fn idle() -> BackfillView {
    BackfillView {
        snapshot: SnapshotView {
            status: BackfillStatus::Idle,
            feed_id: None,
            discovered: 0,
            processed: 0,
            inserted: 0,
            failed: 0,
            batch_size: BATCH_SIZE as nat,
            has_more: false,
            last_error: None,
            source_description: "自动检测归档页，未发现时使用 RSS/Atom 分页"@,
        },
        state: None,
    }
}

/// The import of a feed is about to begin.
pub open spec fn starting(b: BackfillView, feed_id: i64) -> BackfillView {
    BackfillView {
        snapshot: SnapshotView {
            status: BackfillStatus::Fetching,
            feed_id: Some(feed_id),
            discovered: 0,
            processed: 0,
            inserted: 0,
            failed: 0,
            has_more: false,
            last_error: None,
            source_description: "正在自动检测归档页…"@,
            ..b.snapshot
        },
        state: None,
    }
}

/// A source without any page read or article imported.
pub open spec fn fresh_state(feed_id: i64, pager: PagerView) -> StateView {
    StateView {
        feed_id,
        entries: Seq::empty(),
        seen_urls: Seq::empty(),
        failed_entries: Seq::empty(),
        cursor: 0,
        pager,
        paused: false,
        shutdown: false,
    }
}

/// The import once its source is known.
pub open spec fn begun(
    b: BackfillView,
    feed_id: i64,
    pager: PagerView,
    entries: Seq<EntryView>,
) -> BackfillView {
    let state = appended(fresh_state(feed_id, pager), entries);
    BackfillView {
        snapshot: SnapshotView {
            status: BackfillStatus::Fetching,
            feed_id: Some(feed_id),
            discovered: state.entries.len(),
            processed: 0,
            inserted: 0,
            failed: 0,
            has_more: state.entries.len() > 0 || more_pending(pager),
            last_error: None,
            source_description: pager.description,
            ..b.snapshot
        },
        state: Some(state),
    }
}

pub open spec fn with_failure(b: BackfillView, error: Seq<char>) -> BackfillView {
    BackfillView {
        snapshot: SnapshotView {
            status: BackfillStatus::Failed,
            last_error: Some(error),
            ..b.snapshot
        },
        ..b
    }
}

pub open spec fn with_status(b: BackfillView, status: BackfillStatus) -> BackfillView {
    BackfillView { snapshot: SnapshotView { status, ..b.snapshot }, ..b }
}

/// The import at the start of a batch, and the batch if there is one.
pub open spec fn batch_begun(b: BackfillView) -> (BackfillView, Option<Batch>) {
    match b.state {
        None => (b, None),
        Some(s) => if s.paused {
            (with_status(b, BackfillStatus::Paused), None)
        } else {
            (
                BackfillView {
                    snapshot: SnapshotView {
                        status: BackfillStatus::Fetching,
                        last_error: None,
                        ..b.snapshot
                    },
                    ..b
                },
                Some(Batch { target: batch_end(s.cursor) as usize, pages: 0 }),
            )
        },
    }
}

/// The import after a page could not be had: the page can be tried again.
pub open spec fn page_failed_view(b: BackfillView, error: Seq<char>) -> BackfillView {
    let failed = with_failure(b, error);
    BackfillView { snapshot: SnapshotView { has_more: true, ..failed.snapshot }, ..failed }
}

/// The import after an article was stored, with the number of new ones, or
/// could not be.
pub open spec fn article_handled(b: BackfillView, outcome: Option<usize>) -> BackfillView {
    match b.state {
        None => b,
        Some(s) => {
            let after = StateView {
                cursor: s.cursor + 1,
                failed_entries: if outcome is None {
                    s.failed_entries.push(s.entries[s.cursor as int])
                } else {
                    s.failed_entries
                },
                ..s
            };
            BackfillView {
                snapshot: SnapshotView {
                    inserted: b.snapshot.inserted + outcome.unwrap_or(0) as nat,
                    processed: b.snapshot.processed + 1,
                    failed: after.failed_entries.len(),
                    discovered: after.entries.len(),
                    ..b.snapshot
                },
                state: Some(after),
            }
        },
    }
}

/// The import at the end of a batch.
pub open spec fn batch_ended(b: BackfillView) -> BackfillView {
    match b.state {
        None => b,
        Some(s) => BackfillView {
            snapshot: SnapshotView {
                has_more: unfinished(s),
                status: resting_status(unfinished(s)),
                ..b.snapshot
            },
            ..b
        },
    }
}

/// The import once the failed entries were taken out to be tried again.
pub open spec fn retry_begun(b: BackfillView) -> BackfillView {
    match b.state {
        None => b,
        Some(s) => BackfillView {
            state: Some(StateView { failed_entries: Seq::empty(), ..s }),
            ..b
        },
    }
}

/// The import after an entry was tried again.
pub open spec fn retried_view(b: BackfillView, entry: EntryView, outcome: Option<usize>) -> BackfillView {
    match b.state {
        None => b,
        Some(s) => match outcome {
            Some(n) => BackfillView {
                snapshot: SnapshotView { inserted: b.snapshot.inserted + n as nat, ..b.snapshot },
                ..b
            },
            None => BackfillView {
                state: Some(StateView { failed_entries: s.failed_entries.push(entry), ..s }),
                ..b
            },
        },
    }
}

/// The import once all failed entries were tried again.
pub open spec fn retry_ended(b: BackfillView) -> BackfillView {
    match b.state {
        None => b,
        Some(s) => BackfillView {
            snapshot: SnapshotView {
                failed: s.failed_entries.len(),
                has_more: unfinished(s),
                status: if s.failed_entries.len() == 0 {
                    resting_status(unfinished(s))
                } else {
                    BackfillStatus::Failed
                },
                ..b.snapshot
            },
            ..b
        },
    }
}

/// What the user may ask for.
#[derive(Debug)]
pub enum Command {
    Start { feed_id: i64, feed_url: String },
    Next,
    Pause,
    Resume,
    Retry,
    Shutdown,
}

/// Whether a running batch goes on after the commands that came in.
#[derive(Debug, Clone, Copy, PartialEq, Eq, Structural)]
pub enum Control {
    /// Look for another command.
    Look,
    /// Leave the batch.
    Leave,
    /// Go on with the batch.
    GoOn,
}

/// The import after a command that came in during a batch. Without one the
/// batch goes on unless it was paused.
pub open spec fn controlled(b: BackfillView, command: Option<Command>) -> (BackfillView, Control) {
    match b.state {
        None => (b, Control::Leave),
        Some(s) => match command {
            Some(Command::Pause) => (
                BackfillView {
                    state: Some(StateView { paused: true, ..s }),
                    ..with_status(b, BackfillStatus::Paused)
                },
                Control::Leave,
            ),
            Some(Command::Shutdown) => (
                BackfillView {
                    state: Some(StateView { paused: true, shutdown: true, ..s }),
                    ..b
                },
                Control::Leave,
            ),
            Some(Command::Resume) => (
                BackfillView { state: Some(StateView { paused: false, ..s }), ..b },
                Control::Look,
            ),
            Some(_) => (b, Control::Look),
            None => (
                b,
                if s.paused {
                    Control::Leave
                } else {
                    Control::GoOn
                },
            ),
        },
    }
}

/// What a command that came in between batches asks for.
#[derive(Debug)]
pub enum WorkerAction {
    Stop,
    /// Find the source of this feed, then run a batch.
    Discover { feed_id: i64, feed_url: String },
    RunBatch,
    /// Tell the user interface that something changed.
    Announce,
    Retry,
    Wait,
}

/// The import after a command that came in between batches.
pub open spec fn commanded(b: BackfillView, command: Command) -> (BackfillView, WorkerAction) {
    match command {
        Command::Shutdown => (b, WorkerAction::Stop),
        Command::Start { feed_id, feed_url } => (
            starting(b, feed_id),
            WorkerAction::Discover { feed_id, feed_url },
        ),
        Command::Next => (b, WorkerAction::RunBatch),
        Command::Pause => match b.state {
            Some(s) => (
                BackfillView {
                    state: Some(StateView { paused: true, ..s }),
                    ..with_status(b, BackfillStatus::Paused)
                },
                WorkerAction::Announce,
            ),
            None => (b, WorkerAction::Wait),
        },
        Command::Resume => match b.state {
            Some(s) => (
                BackfillView { state: Some(StateView { paused: false, ..s }), ..b },
                WorkerAction::RunBatch,
            ),
            None => (b, WorkerAction::Wait),
        },
        Command::Retry => (b, WorkerAction::Retry),
    }
}

impl Backfill {
    pub fn new() -> (r: Backfill)
        ensures
            r@ == idle(),
    {
        Backfill {
            snapshot: BackfillSnapshot {
                status: BackfillStatus::Idle,
                feed_id: None,
                discovered: 0,
                processed: 0,
                inserted: 0,
                failed: 0,
                batch_size: BATCH_SIZE,
                has_more: false,
                last_error: None,
                source_description: "自动检测归档页，未发现时使用 RSS/Atom 分页".to_owned(),
            },
            state: None,
        }
    }

    /// Takes in a command that came in between batches.
    pub fn command(&mut self, command: Command) -> (r: WorkerAction)
        ensures
            final(self)@ == commanded(old(self)@, command).0,
            r == commanded(old(self)@, command).1,
    {
        match command {
            Command::Shutdown => WorkerAction::Stop,
            Command::Start { feed_id, feed_url } => {
                self.state = None;
                self.snapshot.status = BackfillStatus::Fetching;
                self.snapshot.feed_id = Some(feed_id);
                self.snapshot.discovered = 0;
                self.snapshot.processed = 0;
                self.snapshot.inserted = 0;
                self.snapshot.failed = 0;
                self.snapshot.has_more = false;
                self.snapshot.last_error = None;
                self.snapshot.source_description = "正在自动检测归档页…".to_owned();
                WorkerAction::Discover { feed_id, feed_url }
            },
            Command::Next => WorkerAction::RunBatch,
            Command::Pause => match &mut self.state {
                Some(state) => {
                    state.paused = true;
                    self.snapshot.status = BackfillStatus::Paused;
                    WorkerAction::Announce
                },
                None => WorkerAction::Wait,
            },
            Command::Resume => match &mut self.state {
                Some(state) => {
                    state.paused = false;
                    WorkerAction::RunBatch
                },
                None => WorkerAction::Wait,
            },
            Command::Retry => WorkerAction::Retry,
        }
    }

    /// The source of the feed is known.
    pub fn discovered(&mut self, feed_id: i64, pager: Pager, entries: &[Entry])
        ensures
            final(self)@ == begun(old(self)@, feed_id, pager@, entry_views(entries@)),
            final(self)@.state->0.wf(),
    {
        let more = pager.has_more();
        let description = pager.description.clone();
        let mut state = State {
            feed_id,
            entries: Vec::new(),
            seen_urls: Vec::new(),
            failed_entries: Vec::new(),
            cursor: 0,
            pager,
            paused: false,
            shutdown: false,
        };
        proof {
            let fresh = fresh_state(feed_id, pager@);
            assert(entry_views(state.entries@) =~= fresh.entries);
            assert(entry_views(state.failed_entries@) =~= fresh.failed_entries);
            assert(texts(state.seen_urls@) =~= fresh.seen_urls);
            assert(identities(fresh.entries) =~= fresh.seen_urls);
            lemma_appended(fresh, entry_views(entries@));
        }
        append_entries(&mut state, entries);
        self.snapshot.status = BackfillStatus::Fetching;
        self.snapshot.feed_id = Some(feed_id);
        self.snapshot.discovered = state.entries.len();
        self.snapshot.processed = 0;
        self.snapshot.inserted = 0;
        self.snapshot.failed = 0;
        self.snapshot.has_more = state.entries.len() > 0 || more;
        self.snapshot.last_error = None;
        self.snapshot.source_description = description;
        self.state = Some(state);
    }

    /// The source of the feed could not be found.
    pub fn discovery_failed(&mut self, error: String)
        ensures
            final(self)@ == with_failure(old(self)@, error@),
    {
        self.snapshot.status = BackfillStatus::Failed;
        self.snapshot.last_error = Some(error);
    }

    /// Begins a batch, unless nothing is under way or it is paused.
    pub fn begin_batch(&mut self) -> (r: Option<Batch>)
        ensures
            final(self)@ == batch_begun(old(self)@).0,
            r == batch_begun(old(self)@).1,
    {
        match &self.state {
            None => None,
            Some(state) => {
                let cursor: usize = state.cursor;
                if state.paused {
                    self.snapshot.status = BackfillStatus::Paused;
                    None
                } else {
                    self.snapshot.status = BackfillStatus::Fetching;
                    self.snapshot.last_error = None;
                    let target: usize = if cursor <= usize::MAX - BATCH_SIZE {
                        cursor + BATCH_SIZE
                    } else {
                        usize::MAX
                    };
                    Some(Batch { target, pages: 0 })
                }
            },
        }
    }

    /// What the batch does next.
    pub fn batch_step(&self, batch: Batch) -> (r: BatchStep)
        ensures
            r == (match self@.state {
                Some(s) => batch_step_of(s, batch),
                None => BatchStep::Finish,
            }),
    {
        match &self.state {
            None => BatchStep::Finish,
            Some(state) => {
                if state.entries.len() < batch.target && batch.pages < PAGES_PER_BATCH
                    && state.pager.has_more() {
                    BatchStep::FetchPage
                } else if state.cursor < state.entries.len() && state.cursor < batch.target {
                    BatchStep::FetchArticle
                } else {
                    BatchStep::Finish
                }
            },
        }
    }

    /// Takes in a command that came in during a batch, or that none did.
    pub fn control(&mut self, command: Option<Command>) -> (r: Control)
        ensures
            final(self)@ == controlled(old(self)@, command).0,
            r == controlled(old(self)@, command).1,
    {
        match &mut self.state {
            None => Control::Leave,
            Some(state) => match command {
                Some(Command::Pause) => {
                    state.paused = true;
                    self.snapshot.status = BackfillStatus::Paused;
                    Control::Leave
                },
                Some(Command::Shutdown) => {
                    state.paused = true;
                    state.shutdown = true;
                    Control::Leave
                },
                Some(Command::Resume) => {
                    state.paused = false;
                    Control::Look
                },
                Some(_) => Control::Look,
                None => if state.paused {
                    Control::Leave
                } else {
                    Control::GoOn
                },
            },
        }
    }

    /// The address of the page that the batch fetches.
    pub fn next_page_address(&mut self) -> (r: Option<String>)
        ensures
            match old(self)@.state {
                None => r is None && final(self)@ == old(self)@,
                Some(s) => {
                    let at = at_next(s.pager);
                    final(self)@ == (BackfillView {
                        state: Some(StateView { pager: at, ..s }),
                        ..old(self)@
                    }) && text_opt(r) == (if at.pending.len() > 0 {
                        Some(at.pending[0])
                    } else {
                        None
                    })
                },
            },
    {
        match &mut self.state {
            None => None,
            Some(state) => state.pager.next_address(),
        }
    }

    /// The page at the front was fetched. Where it cannot be read, it stays
    /// at the front and the import waits with the failure.
    pub fn page_fetched(&mut self, batch: Batch, document: &FetchedWebClip) -> (r: Option<Batch>)
        requires
            batch.pages < PAGES_PER_BATCH,
        ensures
            ({
                let b = old(self)@;
                let s = b.state->0;
                let html = document.html@;
                let final_url = document.final_url@;
                &&& b.state is None ==> r is None && final(self)@ == b
                &&& b.state is Some ==> final(self)@.state is Some && (s.wf()
                    ==> final(self)@.state->0.wf())
                &&& b.state is Some && s.pager.pending.len() > 0 && fetch_refusal(
                    s.pager,
                    html,
                    final_url,
                ) is Some ==> r is None && final(self)@ == page_failed_view(
                    b,
                    crate::history_discovery::page::failure_text(
                        fetch_refusal(s.pager, html, final_url)->0,
                    ),
                )
                &&& b.state is Some && !(s.pager.pending.len() > 0 && fetch_refusal(
                    s.pager,
                    html,
                    final_url,
                ) is Some) ==> r == Some(
                    Batch { target: batch.target, pages: (batch.pages + 1) as usize },
                ) && final(self)@.snapshot == b.snapshot && if s.pager.pending.len() == 0 {
                    final(self)@ == b
                } else if s.pager.visited.contains(final_url) {
                    final(self)@.state == Some(StateView { pager: passed_over(s.pager), ..s })
                } else {
                    exists|page: PageView|
                        page_lists(s.pager.kind, html, final_url, page)
                            && final(self)@.state == Some(
                            appended(
                                StateView {
                                    pager: #[trigger] advanced(s.pager, final_url, page),
                                    ..s
                                },
                                page.entries,
                            ),
                        )
                }
            }),
    {
        let ghost b = self@;
        match &mut self.state {
            None => None,
            Some(state) => {
                let ghost s = state@;
                match state.pager.page_fetched(document) {
                    Err(failure) => {
                        self.snapshot.status = BackfillStatus::Failed;
                        self.snapshot.last_error = Some(failure.text());
                        self.snapshot.has_more = true;
                        None
                    },
                    Ok(entries) => {
                        let ghost mid = state@;
                        proof {
                            assert(mid == StateView { pager: mid.pager, ..s });
                            if s.wf() {
                                lemma_appended(mid, entry_views(entries@));
                            }
                            if entries@.len() == 0 {
                                assert(entry_views(entries@) =~= Seq::<EntryView>::empty());
                            }
                        }
                        append_entries(state, &entries);
                        Some(Batch { target: batch.target, pages: batch.pages + 1 })
                    },
                }
            },
        }
    }

    /// The page at the front could not be fetched; it can be tried again.
    pub fn page_failed(&mut self, error: String)
        ensures
            final(self)@ == page_failed_view(old(self)@, error@),
    {
        self.snapshot.status = BackfillStatus::Failed;
        self.snapshot.last_error = Some(error);
        self.snapshot.has_more = true;
    }

    /// The entry that the batch imports next.
    pub fn current_entry(&self) -> (r: Option<&Entry>)
        ensures
            match self@.state {
                None => r is None,
                Some(s) => match r {
                    Some(entry) => s.cursor < s.entries.len() && entry@
                        == s.entries[s.cursor as int],
                    None => s.cursor >= s.entries.len(),
                },
            },
    {
        match &self.state {
            None => None,
            Some(state) => if state.cursor < state.entries.len() {
                Some(&state.entries[state.cursor])
            } else {
                None
            },
        }
    }

    /// The entry at the cursor was stored, with the number of new articles, or
    /// could not be.
    pub fn article_done(&mut self, outcome: Option<usize>)
        requires
            old(self)@.state is Some ==> old(self)@.state->0.cursor < old(
                self,
            )@.state->0.entries.len(),
            old(self)@.snapshot.inserted + outcome.unwrap_or(0) <= usize::MAX,
            old(self)@.snapshot.processed < usize::MAX,
        ensures
            final(self)@ == article_handled(old(self)@, outcome),
    {
        match &mut self.state {
            None => {},
            Some(state) => {
                let ghost s = state@;
                let total: usize = state.entries.len();
                match outcome {
                    Some(n) => {
                        self.snapshot.inserted = self.snapshot.inserted + n;
                    },
                    None => {
                        let entry = state.entries[state.cursor].copied();
                        let ghost known = state.failed_entries@;
                        state.failed_entries.push(entry);
                        proof {
                            assert(entry_views(state.failed_entries@) =~= entry_views(known).push(
                                entry@,
                            ));
                            assert(entry@ == s.entries[s.cursor as int]);
                        }
                    },
                }
                state.cursor = state.cursor + 1;
                self.snapshot.processed = self.snapshot.processed + 1;
                self.snapshot.failed = state.failed_entries.len();
                self.snapshot.discovered = total;
            },
        }
    }

    /// The batch is done.
    pub fn finish_batch(&mut self)
        ensures
            final(self)@ == batch_ended(old(self)@),
    {
        match &self.state {
            None => {},
            Some(state) => {
                let more: bool = state.cursor < state.entries.len() || state.pager.has_more();
                self.snapshot.has_more = more;
                self.snapshot.status = if more {
                    BackfillStatus::WaitingNextBatch
                } else {
                    BackfillStatus::Completed
                };
            },
        }
    }

    /// Takes out the entries that failed, to try them again.
    pub fn begin_retry(&mut self) -> (r: Vec<Entry>)
        ensures
            final(self)@ == retry_begun(old(self)@),
            entry_views(r@) == (match old(self)@.state {
                Some(s) => s.failed_entries,
                None => Seq::empty(),
            }),
    {
        let mut taken: Vec<Entry> = Vec::new();
        match &mut self.state {
            None => {
                proof {
                    assert(entry_views(taken@) =~= Seq::<EntryView>::empty());
                }
            },
            Some(state) => {
                std::mem::swap(&mut taken, &mut state.failed_entries);
                proof {
                    assert(entry_views(state.failed_entries@) =~= Seq::<EntryView>::empty());
                }
            },
        }
        taken
    }

    /// An entry was tried again.
    pub fn retried(&mut self, entry: Entry, outcome: Option<usize>)
        requires
            old(self)@.snapshot.inserted + outcome.unwrap_or(0) <= usize::MAX,
        ensures
            final(self)@ == retried_view(old(self)@, entry@, outcome),
    {
        match &mut self.state {
            None => {},
            Some(state) => match outcome {
                Some(n) => {
                    self.snapshot.inserted = self.snapshot.inserted + n;
                },
                None => {
                    let ghost known = state.failed_entries@;
                    state.failed_entries.push(entry);
                    proof {
                        assert(entry_views(state.failed_entries@) =~= entry_views(known).push(
                            entry@,
                        ));
                    }
                },
            },
        }
    }

    /// All failed entries were tried again.
    pub fn finish_retry(&mut self)
        ensures
            final(self)@ == retry_ended(old(self)@),
    {
        match &self.state {
            None => {},
            Some(state) => {
                let more: bool = state.cursor < state.entries.len() || state.pager.has_more();
                let failed: usize = state.failed_entries.len();
                self.snapshot.failed = failed;
                self.snapshot.has_more = more;
                self.snapshot.status = if failed > 0 {
                    BackfillStatus::Failed
                } else if more {
                    BackfillStatus::WaitingNextBatch
                } else {
                    BackfillStatus::Completed
                };
            },
        }
    }

    /// Whether the worker was told to stop during a batch.
    pub fn shutting_down(&self) -> (r: bool)
        ensures
            r == (self@.state is Some && self@.state->0.shutdown),
    {
        match &self.state {
            None => false,
            Some(state) => state.shutdown,
        }
    }
}

// ---- what holds of every import ----------------------------------------------

/// What is shown of an import counts what was done.
pub open spec fn accounted(b: BackfillView) -> bool {
    b.state is Some ==> b.snapshot.processed == b.state->0.cursor && b.snapshot.failed
        == b.state->0.failed_entries.len()
}

/// Whatever happens to an import, what is shown of it counts the articles that
/// were handled and those that failed.
pub proof fn progress_is_accounted_for(
    b: BackfillView,
    feed_id: i64,
    pager: PagerView,
    entries: Seq<EntryView>,
    error: Seq<char>,
    outcome: Option<usize>,
    command: Command,
)
    requires
        accounted(b),
    ensures
        accounted(idle()),
        accounted(starting(b, feed_id)),
        accounted(begun(b, feed_id, pager, entries)),
        accounted(with_failure(b, error)),
        accounted(batch_begun(b).0),
        accounted(page_failed_view(b, error)),
        accounted(article_handled(b, outcome)),
        accounted(batch_ended(b)),
        accounted(controlled(b, Some(command)).0),
        accounted(controlled(b, None).0),
        accounted(commanded(b, command).0),
        b.state is Some ==> accounted(
            BackfillView { state: Some(appended(b.state->0, entries)), ..b },
        ),
{
    lemma_untouched(fresh_state(feed_id, pager), entries);
    if b.state is Some {
        lemma_untouched(b.state->0, entries);
    }
}

proof fn lemma_untouched(s: StateView, entries: Seq<EntryView>)
    ensures
        appended(s, entries).cursor == s.cursor,
        appended(s, entries).failed_entries == s.failed_entries,
    decreases entries.len(),
{
    if entries.len() > 0 {
        lemma_untouched(s, entries.drop_last());
    }
}

/// A batch reads a limited number of pages and imports a limited number of
/// articles, each of them the next one.
pub proof fn a_batch_is_bounded(b: BackfillView, s: StateView, batch: Batch)
    requires
        b.state is Some,
        b.state->0.cursor <= usize::MAX,
    ensures
        batch_begun(b).1 is Some <==> !b.state->0.paused,
        batch_begun(b).1 is Some ==> batch_begun(b).1->0.pages == 0 && b.state->0.cursor
            <= batch_begun(b).1->0.target <= b.state->0.cursor + BATCH_SIZE,
        batch_step_of(s, batch) is FetchPage ==> batch.pages < PAGES_PER_BATCH,
        batch_step_of(s, batch) is FetchArticle ==> s.cursor < batch.target && s.cursor
            < s.entries.len(),
        b.state->0.cursor < b.state->0.entries.len() ==> article_handled(
            b,
            None,
        ).state->0.cursor == b.state->0.cursor + 1,
{
}

/// Pausing and resuming leaves an import where it was.
pub proof fn pausing_keeps_the_place(b: BackfillView)
    requires
        b.state is Some,
        !b.state->0.paused,
    ensures
        commanded(commanded(b, Command::Pause).0, Command::Resume).0.state == b.state,
        commanded(controlled(b, Some(Command::Pause)).0, Command::Resume).0.state == b.state,
        batch_begun(commanded(b, Command::Pause).0).1 is None,
        batch_begun(commanded(commanded(b, Command::Pause).0, Command::Resume).0).1 == batch_begun(
            b,
        ).1,
{
}

/// An import is complete exactly when nothing is left to read or to import.
pub proof fn completion_means_nothing_is_left(b: BackfillView)
    requires
        b.state is Some,
    ensures
        batch_ended(b).snapshot.status is Completed <==> !unfinished(b.state->0),
        batch_ended(b).snapshot.has_more <==> unfinished(b.state->0),
        retry_ended(b).snapshot.status is Completed <==> !unfinished(b.state->0)
            && b.state->0.failed_entries.len() == 0,
        retry_ended(b).snapshot.status is Failed <==> b.state->0.failed_entries.len() > 0,
{
}

/// The import after every entry was tried again in vain.
pub open spec fn all_retried_in_vain(b: BackfillView, entries: Seq<EntryView>) -> BackfillView
    decreases entries.len(),
{
    if entries.len() == 0 {
        b
    } else {
        retried_view(all_retried_in_vain(b, entries.drop_last()), entries.last(), None)
    }
}

proof fn lemma_retried_in_vain(b: BackfillView, entries: Seq<EntryView>)
    requires
        b.state is Some,
    ensures
        all_retried_in_vain(b, entries) == (BackfillView {
            state: Some(
                StateView {
                    failed_entries: b.state->0.failed_entries + entries,
                    ..b.state->0
                },
            ),
            ..b
        }),
    decreases entries.len(),
{
    if entries.len() > 0 {
        lemma_retried_in_vain(b, entries.drop_last());
        assert(b.state->0.failed_entries + entries =~= (b.state->0.failed_entries
            + entries.drop_last()).push(entries.last()));
    } else {
        assert(b.state->0.failed_entries + entries =~= b.state->0.failed_entries);
    }
}

/// No entry is lost when it is tried again in vain.
pub proof fn a_failed_retry_keeps_the_entries(b: BackfillView)
    requires
        b.state is Some,
    ensures
        all_retried_in_vain(retry_begun(b), b.state->0.failed_entries) == b,
{
    lemma_retried_in_vain(retry_begun(b), b.state->0.failed_entries);
    assert(Seq::<EntryView>::empty() + b.state->0.failed_entries =~= b.state->0.failed_entries);
}

// ---- fetching with patience ---------------------------------------------------

/// How often an address is tried at most.
pub const ATTEMPTS: u32 = 4;

/// The seconds to wait after a failed attempt.
pub open spec fn pause_after(attempt: nat) -> nat
    decreases attempt,
{
    if attempt == 0 {
        2
    } else {
        2 * pause_after((attempt - 1) as nat)
    }
}

/// The server asked for patience.
pub open spec fn asks_for_patience(error: Seq<char>) -> bool {
    contains(error, "HTTP 429"@)
}

fn pause_seconds(attempt: u32) -> (r: u64)
    requires
        attempt < ATTEMPTS,
    ensures
        r == pause_after(attempt as nat),
{
    proof {
        reveal_with_fuel(pause_after, 4);
    }
    if attempt == 0 {
        2
    } else if attempt == 1 {
        4
    } else if attempt == 2 {
        8
    } else {
        16
    }
}

/// The fetching of an archive page: the addresses to try in turn, each again
/// while its server asks for patience.
#[derive(Debug)]
pub struct ArchiveFetch {
    pub addresses: Vec<String>,
    pub current: usize,
    pub attempt: u32,
}

pub ghost struct ArchiveFetchView {
    pub addresses: Seq<Seq<char>>,
    pub current: nat,
    pub attempt: nat,
}

impl View for ArchiveFetch {
    type V = ArchiveFetchView;

    open spec fn view(&self) -> ArchiveFetchView {
        ArchiveFetchView {
            addresses: texts(self.addresses@),
            current: self.current as nat,
            attempt: self.attempt as nat,
        }
    }
}

/// The fetching after a failed attempt, and the seconds to wait before the
/// next one.
pub open spec fn attempt_failed(f: ArchiveFetchView, error: Seq<char>) -> (ArchiveFetchView, nat) {
    if f.current >= f.addresses.len() {
        (f, 0)
    } else if asks_for_patience(error) && f.attempt + 1 < ATTEMPTS {
        (ArchiveFetchView { attempt: f.attempt + 1, ..f }, pause_after(f.attempt))
    } else {
        (ArchiveFetchView { current: f.current + 1, attempt: 0, ..f }, 0)
    }
}

impl ArchiveFetch {
    pub fn begin(url: &str) -> (r: ArchiveFetch)
        ensures
            r@ == (ArchiveFetchView {
                addresses: archive_addresses(url@, url_parsed(url@), url_with_scheme(url@, "https"@)),
                current: 0,
                attempt: 0,
            }),
    {
        ArchiveFetch { addresses: archive_candidates_for(url), current: 0, attempt: 0 }
    }

    /// The address to try, if one is left.
    pub fn address(&self) -> (r: Option<&String>)
        ensures
            match r {
                Some(url) => self@.current < self@.addresses.len() && url@
                    == self@.addresses[self@.current as int],
                None => self@.current >= self@.addresses.len(),
            },
    {
        if self.current < self.addresses.len() {
            Some(&self.addresses[self.current])
        } else {
            None
        }
    }

    /// Takes in a failed attempt and gives the seconds to wait.
    pub fn failed(&mut self, error: &str) -> (r: u64)
        requires
            old(self)@.attempt < ATTEMPTS,
        ensures
            (final(self)@, r as nat) == attempt_failed(old(self)@, error@),
            final(self)@.attempt < ATTEMPTS,
    {
        if self.current >= self.addresses.len() {
            return 0;
        }
        if self.attempt + 1 < ATTEMPTS && contains_text(&chars_of(error), "HTTP 429") {
            let wait = pause_seconds(self.attempt);
            self.attempt = self.attempt + 1;
            wait
        } else {
            self.current = self.current + 1;
            self.attempt = 0;
            0
        }
    }
}

/// Every failed attempt brings the fetching closer to its end.
pub proof fn fetching_an_archive_ends(f: ArchiveFetchView, error: Seq<char>)
    requires
        f.current < f.addresses.len(),
        f.attempt < ATTEMPTS,
    ensures
        ({
            let after = attempt_failed(f, error).0;
            after.addresses == f.addresses && (after.current > f.current || (after.current
                == f.current && after.attempt > f.attempt)) && after.attempt < ATTEMPTS
        }),
{
}

/// The seconds to wait before an article's page is tried again; `None` once it
/// was tried often enough.
pub fn article_retry(attempt: u32, error: &str) -> (r: Option<u64>)
    ensures
        match r {
            Some(wait) => attempt + 1 < ATTEMPTS && wait == (if asks_for_patience(error@) {
                pause_after(attempt as nat)
            } else {
                0
            }),
            None => attempt + 1 >= ATTEMPTS,
        },
{
    if attempt >= ATTEMPTS - 1 {
        None
    } else if contains_text(&chars_of(error), "HTTP 429") {
        Some(pause_seconds(attempt))
    } else {
        Some(0)
    }
}

// ---- articles from pages -------------------------------------------------------

/// Where the article of an entry comes from.
#[derive(Debug)]
pub enum ArticleSource {
    /// The entry holds it already.
    Listed(NewArticle),
    /// The page at this address has to be read.
    Page(String),
    /// The page would have to be read, but its address is missing.
    MissingAddress,
}

pub ghost enum SourceView {
    Listed(NewArticleView),
    Page(Seq<char>),
    MissingAddress,
}

impl View for ArticleSource {
    type V = SourceView;

    open spec fn view(&self) -> SourceView {
        match self {
            ArticleSource::Listed(article) => SourceView::Listed(article@),
            ArticleSource::Page(url) => SourceView::Page(url@),
            ArticleSource::MissingAddress => SourceView::MissingAddress,
        }
    }
}

pub fn article_source(entry: &Entry) -> (r: ArticleSource)
    ensures
        r@ == (if !entry.fetch_body {
            SourceView::Listed(entry@.article)
        } else {
            match entry@.article.url {
                Some(url) => SourceView::Page(url),
                None => SourceView::MissingAddress,
            }
        }),
{
    if !entry.fetch_body {
        return ArticleSource::Listed(entry.article.copied());
    }
    match &entry.article.url {
        Some(url) => ArticleSource::Page(url.clone()),
        None => ArticleSource::MissingAddress,
    }
}

/// The readable part of a page.
#[derive(Debug)]
pub struct Readable {
    pub title: Option<String>,
    pub content: String,
}

pub open spec fn either<T>(a: Option<T>, b: Option<T>) -> Option<T> {
    if a is Some {
        a
    } else {
        b
    }
}

/// What a fetched article page gives for an entry: what the page says of
/// itself, then what its source said, then the day in its address.
pub open spec fn completed_article(
    entry: EntryView,
    final_url: Seq<char>,
    html: Seq<char>,
    title: Option<Seq<char>>,
    content: Seq<char>,
) -> NewArticleView {
    let (author, published) = page_metadata(html);
    let listed_day = match entry.article.url {
        Some(url) => address_date(url_parsed(url)),
        None => None,
    };
    NewArticleView {
        entry_id: final_url,
        url: Some(final_url),
        title: either(title, entry.article.title),
        author: either(author, entry.article.author),
        published: either(
            either(either(published, entry.article.published), address_date(url_parsed(final_url))),
            listed_day,
        ),
        content: Some(content),
    }
}

fn or_text(a: Option<String>, b: &Option<String>) -> (r: Option<String>)
    ensures
        text_opt(r) == either(text_opt(a), text_opt(*b)),
{
    if a.is_some() {
        a
    } else {
        copy_text(b)
    }
}

/// The article that a fetched page gives for an entry; `None` where the page
/// has no readable text.
pub fn article_from_document(entry: &Entry, fetched: &FetchedWebClip, readable: Readable) -> (r:
    Option<NewArticle>)
    ensures
        match r {
            Some(article) => trim(readable.content@).len() > 0 && article@ == completed_article(
                entry@,
                fetched.final_url@,
                fetched.html@,
                text_opt(readable.title),
                readable.content@,
            ),
            None => trim(readable.content@).len() == 0,
        },
{
    if is_blank(&readable.content) {
        return None;
    }
    let (author, published) = extract_metadata(&fetched.html);
    let published: Option<i64> = if published.is_some() {
        published
    } else if entry.article.published.is_some() {
        entry.article.published
    } else {
        match date_from_url(&fetched.final_url) {
            Some(day) => Some(day),
            None => match &entry.article.url {
                Some(url) => date_from_url(url),
                None => None,
            },
        }
    };
    Some(
        NewArticle {
            entry_id: fetched.final_url.clone(),
            url: Some(fetched.final_url.clone()),
            title: or_text(readable.title, &entry.article.title),
            author: or_text(author, &entry.article.author),
            published,
            content: Some(readable.content),
        },
    )
}

// ---- what each step does ---------------------------------------------------------

/// An entry is known by its address, or by its identity where it has none.
pub proof fn entries_are_known_by_their_address(e: EntryView)
    ensures
        e.article.url matches Some(url) ==> entry_identity(e) == canonical_identity(url),
        e.article.url is None ==> entry_identity(e) == "id:"@ + e.article.entry_id,
{
}

/// The entries of a page go behind those that are known: each that is not known
/// yet, once, and nothing else. The place in the list, the failed entries and
/// the pages that are left stay as they are.
pub proof fn new_entries_go_behind_the_known(s: StateView, entries: Seq<EntryView>)
    ensures
        ({
            let n = appended(s, entries);
            &&& n.entries.len() >= s.entries.len()
            &&& forall|k: int| 0 <= k < s.entries.len() ==> #[trigger] n.entries[k] == s.entries[k]
            &&& forall|k: int|
                s.entries.len() <= k < n.entries.len() ==> entries.contains(#[trigger] n.entries[k])
            &&& forall|k: int|
                0 <= k < entries.len() ==> n.seen_urls.contains(
                    entry_identity(#[trigger] entries[k]),
                )
            &&& forall|x: Seq<char>| #[trigger]
                n.seen_urls.contains(x) && !s.seen_urls.contains(x) ==> exists|k: int|
                    s.entries.len() <= k < n.entries.len() && entry_identity(
                        #[trigger] n.entries[k],
                    ) == x
            &&& n.feed_id == s.feed_id && n.cursor == s.cursor && n.pager == s.pager
            &&& n.failed_entries == s.failed_entries && n.paused == s.paused && n.shutdown
                == s.shutdown
        }),
    decreases entries.len(),
{
    if entries.len() > 0 {
        let rest = entries.drop_last();
        let e = entries.last();
        new_entries_go_behind_the_known(s, rest);
        let before = appended(s, rest);
        let n = appended(s, entries);
        assert forall|k: int| s.entries.len() <= k < n.entries.len() implies entries.contains(
            #[trigger] n.entries[k],
        ) by {
            if k < before.entries.len() {
                assert(n.entries[k] == before.entries[k]);
                let j = choose|j: int| 0 <= j < rest.len() && rest[j] == before.entries[k];
                assert(entries[j] == n.entries[k]);
            } else {
                assert(entries[entries.len() - 1] == n.entries[k]);
            }
        }
        assert forall|x: Seq<char>| before.seen_urls.contains(x) implies #[trigger] n.seen_urls.contains(x) by {
            let j = choose|j: int| 0 <= j < before.seen_urls.len() && before.seen_urls[j] == x;
            assert(n.seen_urls[j] == x);
        }
        assert forall|k: int| 0 <= k < entries.len() implies n.seen_urls.contains(
            entry_identity(#[trigger] entries[k]),
        ) by {
            if k < rest.len() {
                assert(rest[k] == entries[k]);
                assert(before.seen_urls.contains(entry_identity(rest[k])));
            } else if !before.seen_urls.contains(entry_identity(e)) {
                assert(n.seen_urls[n.seen_urls.len() - 1] == entry_identity(e));
            }
        }
        assert forall|x: Seq<char>| #[trigger]
            n.seen_urls.contains(x) && !s.seen_urls.contains(x) implies exists|k: int|
            s.entries.len() <= k < n.entries.len() && entry_identity(#[trigger] n.entries[k])
                == x by {
            if before.seen_urls.contains(x) {
                let k = choose|k: int|
                    s.entries.len() <= k < before.entries.len() && entry_identity(
                        #[trigger] before.entries[k],
                    ) == x;
                assert(n.entries[k] == before.entries[k]);
            } else {
                let j = choose|j: int| 0 <= j < n.seen_urls.len() && n.seen_urls[j] == x;
                if j < before.seen_urls.len() {
                    assert(before.seen_urls[j] == x);
                }
                assert(n.entries[n.entries.len() - 1] == e);
            }
        }
    }
}

/// A batch covers fifty entries from where the import stands. While fewer are
/// listed it reads further pages, ten at most; then it imports the entries up
/// to its end, and then it is over.
pub proof fn batches_take_fifty_entries_and_ten_pages(b: BackfillView, s: StateView, batch: Batch)
    ensures
        batch_step_of(s, batch) is FetchPage <==> s.entries.len() < batch.target && batch.pages
            < 10 && exists|i: int|
            0 <= i < s.pager.pending.len() && !s.pager.visited.contains(
                #[trigger] s.pager.pending[i],
            ),
        batch_step_of(s, batch) is FetchArticle ==> s.cursor < s.entries.len() && s.cursor
            < batch.target,
        batch_step_of(s, batch) is Finish ==> s.cursor >= s.entries.len() || s.cursor
            >= batch.target,
        b.state matches Some(now) ==> !now.paused && now.cursor + 50 <= usize::MAX ==> (batch_begun(
            b,
        ).1 matches Some(begun) && begun.target == now.cursor + 50 && begun.pages == 0),
        b.state matches Some(now) ==> now.paused ==> batch_begun(b).1 is None && batch_begun(
            b,
        ).0.snapshot.status is Paused,
        b.state matches Some(now) ==> !now.paused ==> batch_begun(b).0.snapshot.status is Fetching
            && batch_begun(b).0.snapshot.last_error is None,
        b.state is None ==> batch_begun(b) == (b, None::<Batch>),
        batch_begun(b).0.state == b.state,
{
}

/// A new import forgets the one before it: it looks for its source, and counts
/// from nothing.
pub proof fn a_start_counts_from_nothing(
    b: BackfillView,
    feed_id: i64,
    pager: PagerView,
    entries: Seq<EntryView>,
)
    ensures
        ({
            let n = starting(b, feed_id);
            &&& n.state is None
            &&& n.snapshot.status is Fetching
            &&& n.snapshot.feed_id == Some(feed_id)
            &&& n.snapshot.discovered == 0 && n.snapshot.processed == 0 && n.snapshot.inserted
                == 0 && n.snapshot.failed == 0
            &&& !n.snapshot.has_more
            &&& n.snapshot.last_error is None
        }),
        ({
            let n = begun(b, feed_id, pager, entries);
            &&& n.state is Some
            &&& n.state->0.feed_id == feed_id
            &&& n.state->0.pager == pager
            &&& n.state->0.cursor == 0
            &&& !n.state->0.paused && !n.state->0.shutdown
            &&& n.state->0.failed_entries.len() == 0
            &&& n.snapshot.status is Fetching
            &&& n.snapshot.feed_id == Some(feed_id)
            &&& n.snapshot.discovered == n.state->0.entries.len()
            &&& n.snapshot.processed == 0 && n.snapshot.inserted == 0 && n.snapshot.failed == 0
            &&& n.snapshot.has_more <==> n.state->0.entries.len() > 0 || more_pending(pager)
            &&& n.snapshot.source_description == pager.description
            &&& forall|k: int|
                0 <= k < entries.len() ==> n.state->0.seen_urls.contains(
                    entry_identity(#[trigger] entries[k]),
                )
        }),
        idle().snapshot.status is Idle && idle().snapshot.batch_size == 50
            && idle().state is None && !idle().snapshot.has_more,
{
    new_entries_go_behind_the_known(fresh_state(feed_id, pager), entries);
}

/// The entry in hand is done with one way or the other: what it brought is
/// added to what was imported, or the entry is kept to be tried again.
pub proof fn handled_entries_are_counted(b: BackfillView, outcome: Option<usize>)
    requires
        b.state is Some,
        b.state->0.cursor < b.state->0.entries.len(),
    ensures
        ({
            let s = b.state->0;
            let n = article_handled(b, outcome);
            &&& n.state->0.cursor == s.cursor + 1
            &&& n.state->0.entries == s.entries
            &&& n.snapshot.processed == b.snapshot.processed + 1
            &&& outcome matches Some(count) ==> n.snapshot.inserted == b.snapshot.inserted + count
                && n.state->0.failed_entries == s.failed_entries
            &&& outcome is None ==> n.snapshot.inserted == b.snapshot.inserted
                && n.state->0.failed_entries == s.failed_entries.push(s.entries[s.cursor as int])
            &&& n.snapshot.failed == n.state->0.failed_entries.len()
            &&& n.snapshot.discovered == s.entries.len()
            &&& n.snapshot.status == b.snapshot.status
        }),
{
}

/// An entry that is tried again leaves the failed ones where it brings what it
/// has, and goes back to them where it does not.
pub proof fn retried_entries_are_counted(b: BackfillView, entry: EntryView, outcome: Option<usize>)
    requires
        b.state is Some,
    ensures
        ({
            let s = b.state->0;
            let n = retried_view(b, entry, outcome);
            &&& outcome matches Some(count) ==> n.snapshot.inserted == b.snapshot.inserted + count
                && n.state == b.state
            &&& outcome is None ==> n.snapshot == b.snapshot && n.state->0.failed_entries
                == s.failed_entries.push(entry) && n.state->0.cursor == s.cursor
        }),
        retry_begun(b).state->0.failed_entries.len() == 0,
        retry_begun(b).state->0.entries == b.state->0.entries,
        retry_ended(b).snapshot.failed == b.state->0.failed_entries.len(),
        retry_ended(b).state == b.state,
{
}

/// A batch that pauses or shuts down is left; other commands wait until it is
/// over. Pausing shows, shutting down is remembered, and going on lifts the
/// pause.
pub proof fn batches_obey_pause_and_shutdown(b: BackfillView, command: Command)
    requires
        b.state is Some,
    ensures
        ({
            let (n, control) = controlled(b, Some(command));
            &&& command is Pause ==> control is Leave && n.state->0.paused
                && n.snapshot.status is Paused && n.state->0.shutdown == b.state->0.shutdown
            &&& command is Shutdown ==> control is Leave && n.state->0.paused
                && n.state->0.shutdown
            &&& command is Resume ==> control is Look && !n.state->0.paused
            &&& !(command is Pause) && !(command is Shutdown) && !(command is Resume)
                ==> control is Look && n == b
            &&& n.state->0.cursor == b.state->0.cursor && n.state->0.entries
                == b.state->0.entries
        }),
        controlled(b, None).0 == b,
        controlled(b, None).1 is Leave <==> b.state->0.paused,
        controlled(b, None).1 is GoOn <==> !b.state->0.paused,
{
}

/// A resting import does what it is told: it starts anew with the feed that it
/// is given, goes on, pauses, tries again, or stops.
pub proof fn commands_are_carried_out(b: BackfillView, command: Command)
    ensures
        ({
            let (n, action) = commanded(b, command);
            &&& command is Shutdown ==> action is Stop && n == b
            &&& command matches Command::Start { feed_id, feed_url } ==> action
                == (WorkerAction::Discover { feed_id, feed_url }) && n.snapshot.feed_id == Some(
                feed_id,
            )
            &&& command is Next ==> action is RunBatch && n == b
            &&& command is Retry ==> action is Retry && n == b
            &&& command is Pause && b.state is Some ==> action is Announce && n.state->0.paused
                && n.snapshot.status is Paused
            &&& command is Resume && b.state is Some ==> action is RunBatch && !n.state->0.paused
            &&& (command is Pause || command is Resume) && b.state is None ==> action is Wait && n
                == b
        }),
{
}

/// A failure shows with its reason and keeps the place; a page that could not
/// be read is still to come.
pub proof fn failures_show_and_keep_the_place(b: BackfillView, error: Seq<char>)
    ensures
        with_failure(b, error).snapshot.status is Failed,
        with_failure(b, error).snapshot.last_error == Some(error),
        with_failure(b, error).snapshot.has_more == b.snapshot.has_more,
        with_failure(b, error).state == b.state,
        page_failed_view(b, error).snapshot.status is Failed,
        page_failed_view(b, error).snapshot.last_error == Some(error),
        page_failed_view(b, error).snapshot.has_more,
        page_failed_view(b, error).state == b.state,
{
}

/// A batch that ends waits for the next one where something is left.
pub proof fn ended_batches_wait_for_the_next(b: BackfillView)
    requires
        b.state is Some,
    ensures
        batch_ended(b).snapshot.status is WaitingNextBatch <==> b.state->0.cursor
            < b.state->0.entries.len() || more_pending(b.state->0.pager),
        batch_ended(b).snapshot.has_more <==> b.state->0.cursor < b.state->0.entries.len()
            || more_pending(b.state->0.pager),
        batch_ended(b).state == b.state,
{
}

/// Only a site that asks for patience is asked again at the same address, four
/// times in all, after two seconds first and twice as long each time; any other
/// failure goes on to the next address at once.
pub proof fn patience_doubles_three_times(f: ArchiveFetchView, error: Seq<char>)
    requires
        f.current < f.addresses.len(),
    ensures
        contains(error, "HTTP 429"@) && f.attempt < 3 ==> attempt_failed(f, error).0.current
            == f.current && attempt_failed(f, error).0.attempt == f.attempt + 1,
        !(contains(error, "HTTP 429"@) && f.attempt < 3) ==> attempt_failed(f, error).0.current
            == f.current + 1 && attempt_failed(f, error).0.attempt == 0 && attempt_failed(
            f,
            error,
        ).1 == 0,
        contains(error, "HTTP 429"@) && f.attempt == 0 ==> attempt_failed(f, error).1 == 2,
        contains(error, "HTTP 429"@) && f.attempt == 1 ==> attempt_failed(f, error).1 == 4,
        contains(error, "HTTP 429"@) && f.attempt == 2 ==> attempt_failed(f, error).1 == 8,
        asks_for_patience(error) <==> contains(error, "HTTP 429"@),
{
    reveal_with_fuel(pause_after, 3);
}

/// An imported article stands at the address where its page was found. Its
/// title is the page's own before the list's, and so is its author. Its time is
/// what the page says, then what the list says, then the day in the address of
/// the page, then the day in the address that was listed.
pub proof fn pages_speak_before_lists(
    entry: EntryView,
    final_url: Seq<char>,
    html: Seq<char>,
    title: Option<Seq<char>>,
    content: Seq<char>,
)
    ensures
        ({
            let a = completed_article(entry, final_url, html, title, content);
            let (author, published) = page_metadata(html);
            let of_page = address_date(url_parsed(final_url));
            &&& a.entry_id == final_url
            &&& a.url == Some(final_url)
            &&& a.content == Some(content)
            &&& title is Some ==> a.title == title
            &&& title is None ==> a.title == entry.article.title
            &&& author is Some ==> a.author == author
            &&& author is None ==> a.author == entry.article.author
            &&& published is Some ==> a.published == published
            &&& published is None && entry.article.published is Some ==> a.published
                == entry.article.published
            &&& published is None && entry.article.published is None && of_page is Some
                ==> a.published == of_page
            &&& published is None && entry.article.published is None && of_page is None
                && entry.article.url is None ==> a.published is None
            &&& published is None && entry.article.published is None && of_page is None ==> (
            entry.article.url matches Some(url) ==> a.published == address_date(url_parsed(url)))
        }),
{
}

/// An import that has not begun says how it will look for its source, and one
/// that begins that it looks.
pub proof fn imports_say_what_they_look_for(b: BackfillView, feed_id: i64)
    ensures
        idle().snapshot.source_description == "自动检测归档页，未发现时使用 RSS/Atom 分页"@,
        starting(b, feed_id).snapshot.source_description == "正在自动检测归档页…"@,
{
}

} // verus!
