//! Knowledge processing from the desktop: settings, watched tasks and what to
//! tell the reader when they change.

use vstd::prelude::*;

use crate::knowledge_workflow::types::{
    terminal, ConnectionState, KnowledgeNotice, TaskKey, TaskKind, TaskSnapshot, TaskStatus,
};
use crate::text::{lemma_texts_push, text_opt, texts};

verus! {

#[derive(Debug)]
pub struct KnowledgeFeature {
    pub api_key_draft: String,
    pub settings_message: Option<String>,
    pub connection_state: Option<ConnectionState>,
    pub watched: Vec<TaskKey>,
    pub pending_notices: Vec<TaskKey>,
}

pub ghost struct KnowledgeView {
    pub api_key_draft: Seq<char>,
    pub settings_message: Option<Seq<char>>,
    pub connection_state: Option<ConnectionState>,
    pub watched: Seq<TaskKey>,
    pub pending_notices: Seq<TaskKey>,
}

impl View for KnowledgeFeature {
    type V = KnowledgeView;

    open spec fn view(&self) -> KnowledgeView {
        KnowledgeView {
            api_key_draft: self.api_key_draft@,
            settings_message: text_opt(self.settings_message),
            connection_state: self.connection_state,
            watched: self.watched@,
            pending_notices: self.pending_notices@,
        }
    }
}

impl KnowledgeView {
    /// No task is watched twice.
    pub open spec fn wf(self) -> bool {
        self.watched.no_duplicates()
    }
}

pub open spec fn connection_text(state: ConnectionState) -> Seq<char> {
    match state {
        ConnectionState::Running => "正在测试 DeepSeek 连接"@,
        ConnectionState::Succeeded(message) => message@,
        ConnectionState::Failed { detail } => "连接失败："@ + detail@,
    }
}

fn connection_message(state: &ConnectionState) -> (r: String)
    ensures
        r@ == connection_text(*state),
{
    match state {
        ConnectionState::Running => "正在测试 DeepSeek 连接".to_owned(),
        ConnectionState::Succeeded(message) => message.clone(),
        ConnectionState::Failed { detail } => {
            let mut text = "连接失败：".to_owned();
            text.append(detail);
            text
        },
    }
}

/// The feature with one more task to watch.
pub open spec fn watching(f: KnowledgeView, key: TaskKey) -> KnowledgeView {
    KnowledgeView {
        watched: if f.watched.contains(key) {
            f.watched
        } else {
            f.watched.push(key)
        },
        ..f
    }
}

/// The feature after one notice of the workflow.
pub open spec fn noticed(f: KnowledgeView, notice: KnowledgeNotice) -> KnowledgeView {
    match notice {
        KnowledgeNotice::Changed(key) => KnowledgeView {
            pending_notices: f.pending_notices.push(key),
            ..f
        },
        KnowledgeNotice::ConnectionChanged(state) => KnowledgeView {
            settings_message: Some(connection_text(state)),
            connection_state: Some(state),
            ..f
        },
        KnowledgeNotice::ModuleFault { .. } => f,
    }
}

/// The feature after several notices.
pub open spec fn all_noticed(f: KnowledgeView, notices: Seq<KnowledgeNotice>) -> KnowledgeView
    decreases notices.len(),
{
    if notices.len() == 0 {
        f
    } else {
        noticed(all_noticed(f, notices.drop_last()), notices.last())
    }
}

/// The faults among the notices, as the reader is told of them.
pub open spec fn faults(notices: Seq<KnowledgeNotice>) -> Seq<Seq<char>>
    decreases notices.len(),
{
    if notices.len() == 0 {
        Seq::empty()
    } else {
        let earlier = faults(notices.drop_last());
        match notices.last() {
            KnowledgeNotice::ModuleFault { user_message, .. } => earlier.push(user_message@),
            _ => earlier,
        }
    }
}

/// What the desktop knows of a task.
#[derive(Debug)]
pub struct TaskView {
    pub key: TaskKey,
    pub loading: bool,
    pub snapshot: Option<TaskSnapshot>,
}

/// What the desktop knows of the task with this key.
pub open spec fn known(frame: Seq<TaskView>, key: TaskKey) -> Option<TaskView>
    decreases frame.len(),
{
    if frame.len() == 0 {
        None
    } else if frame[0].key == key {
        Some(frame[0])
    } else {
        known(frame.skip(1), key)
    }
}

/// What the reader is told of a task that changed.
pub open spec fn task_text(snapshot: TaskSnapshot) -> Option<Seq<char>> {
    match snapshot.status {
        TaskStatus::Succeeded => Some(
            match snapshot.key.kind {
                TaskKind::ResourceCompletion => "资源抓取和 AI 整理已完成"@,
                TaskKind::ArticleSummary => "AI 总结和中文翻译已保存"@,
            },
        ),
        TaskStatus::Failed | TaskStatus::Interrupted => text_opt(snapshot.user_message),
        TaskStatus::Queued | TaskStatus::Running => None,
    }
}

/// The keys, each where it first occurs.
pub open spec fn distinct(keys: Seq<TaskKey>) -> Seq<TaskKey>
    decreases keys.len(),
{
    if keys.len() == 0 {
        Seq::empty()
    } else {
        let earlier = distinct(keys.drop_last());
        if earlier.contains(keys.last()) {
            earlier
        } else {
            earlier.push(keys.last())
        }
    }
}

pub open spec fn other_than(key: TaskKey) -> spec_fn(TaskKey) -> bool {
    |k: TaskKey| k != key
}

/// What has come of the keys that were looked at so far.
pub ghost struct Published {
    pub watched: Seq<TaskKey>,
    pub pending: Seq<TaskKey>,
    pub texts: Seq<Seq<char>>,
}

pub open spec fn publish_one(p: Published, frame: Seq<TaskView>, key: TaskKey) -> Published {
    match known(frame, key) {
        None => p,
        Some(view) => if view.loading {
            Published { pending: p.pending.push(key), ..p }
        } else {
            match view.snapshot {
                None => p,
                Some(snapshot) => Published {
                    watched: if terminal(snapshot.status) {
                        p.watched.filter(other_than(key))
                    } else {
                        p.watched
                    },
                    texts: match task_text(snapshot) {
                        Some(text) => p.texts.push(text),
                        None => p.texts,
                    },
                    ..p
                },
            }
        },
    }
}

pub open spec fn publish_all(watched: Seq<TaskKey>, frame: Seq<TaskView>, keys: Seq<TaskKey>) -> Published
    decreases keys.len(),
{
    if keys.len() == 0 {
        Published { watched, pending: Seq::empty(), texts: Seq::empty() }
    } else {
        publish_one(publish_all(watched, frame, keys.drop_last()), frame, keys.last())
    }
}

/// The feature once the pending notices were looked at.
pub open spec fn published(f: KnowledgeView, frame: Seq<TaskView>) -> KnowledgeView {
    let done = publish_all(f.watched, frame, distinct(f.pending_notices));
    KnowledgeView { watched: done.watched, pending_notices: done.pending, ..f }
}

fn holds_key(keys: &[TaskKey], key: TaskKey) -> (r: bool)
    ensures
        r == keys@.contains(key),
{
    let mut i: usize = 0;
    while i < keys.len()
        invariant
            i <= keys.len(),
            forall|k: int| 0 <= k < i ==> keys@[k] != key,
        decreases keys.len() - i,
    {
        if keys[i] == key {
            assert(keys@[i as int] == key);
            return true;
        }
        i += 1;
    }
    false
}

fn distinct_keys(keys: &[TaskKey]) -> (r: Vec<TaskKey>)
    ensures
        r@ == distinct(keys@),
{
    let mut r: Vec<TaskKey> = Vec::new();
    let mut i: usize = 0;
    while i < keys.len()
        invariant
            i <= keys.len(),
            r@ == distinct(keys@.take(i as int)),
        decreases keys.len() - i,
    {
        proof {
            assert(keys@.take(i + 1).drop_last() =~= keys@.take(i as int));
        }
        if !holds_key(&r, keys[i]) {
            r.push(keys[i]);
        }
        i += 1;
    }
    proof {
        assert(keys@.take(keys@.len() as int) =~= keys@);
    }
    r
}

fn without_key(keys: &[TaskKey], key: TaskKey) -> (r: Vec<TaskKey>)
    ensures
        r@ == keys@.filter(other_than(key)),
{
    let ghost keep = other_than(key);
    let mut r: Vec<TaskKey> = Vec::new();
    let mut i: usize = 0;
    proof {
        reveal(Seq::filter);
    }
    while i < keys.len()
        invariant
            i <= keys.len(),
            keep == other_than(key),
            r@ == keys@.take(i as int).filter(keep),
        decreases keys.len() - i,
    {
        proof {
            reveal(Seq::filter);
            assert(keys@.take(i + 1).drop_last() =~= keys@.take(i as int));
        }
        if keys[i] != key {
            r.push(keys[i]);
        }
        i += 1;
    }
    proof {
        assert(keys@.take(keys@.len() as int) =~= keys@);
    }
    r
}

fn find_task(frame: &[TaskView], key: TaskKey) -> (r: Option<&TaskView>)
    ensures
        match r {
            Some(view) => known(frame@, key) == Some(*view),
            None => known(frame@, key) is None,
        },
{
    let mut i: usize = 0;
    proof {
        assert(frame@.skip(0) =~= frame@);
    }
    while i < frame.len()
        invariant
            i <= frame.len(),
            known(frame@, key) == known(frame@.skip(i as int), key),
        decreases frame.len() - i,
    {
        proof {
            assert(frame@.skip(i as int)[0] == frame@[i as int]);
            assert(frame@.skip(i as int).skip(1) =~= frame@.skip(i + 1));
        }
        if frame[i].key == key {
            return Some(&frame[i]);
        }
        i += 1;
    }
    None
}

fn task_notice(snapshot: &TaskSnapshot) -> (r: Option<String>)
    ensures
        text_opt(r) == task_text(*snapshot),
{
    match snapshot.status {
        TaskStatus::Succeeded => match snapshot.key.kind {
            TaskKind::ResourceCompletion => Some("资源抓取和 AI 整理已完成".to_owned()),
            TaskKind::ArticleSummary => Some("AI 总结和中文翻译已保存".to_owned()),
        },
        TaskStatus::Failed | TaskStatus::Interrupted => crate::model::copy_text(
            &snapshot.user_message,
        ),
        TaskStatus::Queued | TaskStatus::Running => None,
    }
}

impl KnowledgeFeature {
    pub fn new() -> (r: KnowledgeFeature)
        ensures
            r@ == (KnowledgeView {
                api_key_draft: Seq::empty(),
                settings_message: None,
                connection_state: None,
                watched: Seq::empty(),
                pending_notices: Seq::empty(),
            }),
            r@.wf(),
    {
        KnowledgeFeature {
            api_key_draft: String::new(),
            settings_message: None,
            connection_state: None,
            watched: Vec::new(),
            pending_notices: Vec::new(),
        }
    }

    pub fn settings_message(&self) -> (r: Option<&String>)
        ensures
            match r {
                Some(text) => self@.settings_message == Some(text@),
                None => self@.settings_message is None,
            },
    {
        self.settings_message.as_ref()
    }

    pub fn connection_busy(&self) -> (r: bool)
        ensures
            r == (self@.connection_state matches Some(state) && state is Running),
    {
        match &self.connection_state {
            Some(ConnectionState::Running) => true,
            _ => false,
        }
    }

    /// The key was stored, or could not be. A stored key leaves the draft.
    pub fn api_key_saved(&mut self, failure: Option<String>)
        ensures
            final(self)@ == (match failure {
                None => KnowledgeView {
                    api_key_draft: Seq::empty(),
                    settings_message: Some("API Key 已保存到 Windows 凭据管理器"@),
                    ..old(self)@
                },
                Some(error) => KnowledgeView { settings_message: Some(error@), ..old(self)@ },
            }),
    {
        match failure {
            None => {
                self.api_key_draft = String::new();
                self.settings_message = Some("API Key 已保存到 Windows 凭据管理器".to_owned());
            },
            Some(error) => {
                self.settings_message = Some(error);
            },
        }
    }

    /// The key was deleted, or could not be.
    pub fn api_key_deleted(&mut self, failure: Option<String>)
        ensures
            final(self)@ == (KnowledgeView {
                settings_message: Some(
                    match failure {
                        None => "API Key 已删除"@,
                        Some(error) => error@,
                    },
                ),
                ..old(self)@
            }),
    {
        self.settings_message = match failure {
            None => Some("API Key 已删除".to_owned()),
            Some(error) => Some(error),
        };
    }

    /// A test of the connection began, or could not.
    pub fn connection_test_begun(&mut self, failure: Option<String>)
        ensures
            final(self)@ == (KnowledgeView {
                connection_state: Some(
                    match failure {
                        None => ConnectionState::Running,
                        Some(detail) => ConnectionState::Failed { detail },
                    },
                ),
                ..old(self)@
            }),
    {
        self.connection_state = match failure {
            None => Some(ConnectionState::Running),
            Some(detail) => Some(ConnectionState::Failed { detail }),
        };
    }

    /// A task was requested; from now on it is watched.
    pub fn requested(&mut self, key: TaskKey)
        ensures
            final(self)@ == watching(old(self)@, key),
    {
        if !holds_key(&self.watched, key) {
            self.watched.push(key);
        }
    }

    pub fn watched_keys(&self) -> (r: &Vec<TaskKey>)
        ensures
            r@ == self@.watched,
    {
        &self.watched
    }

    /// Takes in the notices of the workflow and gives back what to tell the
    /// reader at once.
    pub fn receive_updates(&mut self, notices: Vec<KnowledgeNotice>) -> (r: Vec<String>)
        ensures
            final(self)@ == all_noticed(old(self)@, notices@),
            texts(r@) == faults(notices@),
    {
        let ghost start = self@;
        let mut r: Vec<String> = Vec::new();
        let mut i: usize = 0;
        proof {
            assert(texts(r@) =~= Seq::<Seq<char>>::empty());
            assert(notices@.take(0) =~= Seq::<KnowledgeNotice>::empty());
        }
        while i < notices.len()
            invariant
                i <= notices.len(),
                self@ == all_noticed(start, notices@.take(i as int)),
                texts(r@) == faults(notices@.take(i as int)),
            decreases notices.len() - i,
        {
            proof {
                assert(notices@.take(i + 1).drop_last() =~= notices@.take(i as int));
            }
            match &notices[i] {
                KnowledgeNotice::Changed(key) => self.pending_notices.push(*key),
                KnowledgeNotice::ConnectionChanged(state) => {
                    self.settings_message = Some(connection_message(state));
                    self.connection_state = Some(copy_connection(state));
                },
                KnowledgeNotice::ModuleFault { user_message, .. } => {
                    let text = user_message.clone();
                    proof {
                        lemma_texts_push(r@, text);
                    }
                    r.push(text);
                },
            }
            i += 1;
        }
        proof {
            assert(notices@.take(notices@.len() as int) =~= notices@);
        }
        r
    }

    /// Tells the reader of the tasks that changed, once the desktop knows
    /// them. A task that is still loading is looked at again later; one that
    /// ended is no longer watched.
    pub fn publish_pending_notices(&mut self, frame: &[TaskView]) -> (r: Vec<String>)
        ensures
            ({
                let done = publish_all(
                    old(self)@.watched,
                    frame@,
                    distinct(old(self)@.pending_notices),
                );
                &&& texts(r@) == done.texts
                &&& final(self)@ == published(old(self)@, frame@)
            }),
    {
        let ghost start = self@;
        let keys = distinct_keys(&self.pending_notices);
        self.pending_notices = Vec::new();
        let mut r: Vec<String> = Vec::new();
        let mut i: usize = 0;
        proof {
            assert(texts(r@) =~= Seq::<Seq<char>>::empty());
            assert(keys@.take(0) =~= Seq::<TaskKey>::empty());
        }
        while i < keys.len()
            invariant
                i <= keys.len(),
                self.watched@ == publish_all(start.watched, frame@, keys@.take(i as int)).watched,
                self.pending_notices@ == publish_all(
                    start.watched,
                    frame@,
                    keys@.take(i as int),
                ).pending,
                texts(r@) == publish_all(start.watched, frame@, keys@.take(i as int)).texts,
                self@ == (KnowledgeView {
                    watched: self.watched@,
                    pending_notices: self.pending_notices@,
                    ..start
                }),
            decreases keys.len() - i,
        {
            proof {
                assert(keys@.take(i + 1).drop_last() =~= keys@.take(i as int));
                assert(keys@.take(i + 1).last() == keys@[i as int]);
            }
            let key = keys[i];
            match find_task(frame, key) {
                None => {},
                Some(view) => {
                    if view.loading {
                        self.pending_notices.push(key);
                    } else {
                        match &view.snapshot {
                            None => {},
                            Some(snapshot) => {
                                match task_notice(snapshot) {
                                    Some(text) => {
                                        proof {
                                            lemma_texts_push(r@, text);
                                        }
                                        r.push(text);
                                    },
                                    None => {},
                                }
                                if snapshot.status.is_terminal() {
                                    self.watched = without_key(&self.watched, key);
                                }
                            },
                        }
                    }
                },
            }
            i += 1;
        }
        proof {
            assert(keys@.take(keys@.len() as int) =~= keys@);
        }
        r
    }
}

fn copy_connection(state: &ConnectionState) -> (r: ConnectionState)
    ensures
        r == *state,
{
    match state {
        ConnectionState::Running => ConnectionState::Running,
        ConnectionState::Succeeded(message) => ConnectionState::Succeeded(message.clone()),
        ConnectionState::Failed { detail } => ConnectionState::Failed { detail: detail.clone() },
    }
}

proof fn lemma_filter_stems(keys: Seq<TaskKey>, keep: spec_fn(TaskKey) -> bool, key: TaskKey)
    requires
        keys.filter(keep).contains(key),
    ensures
        keys.contains(key),
    decreases keys.len(),
{
    reveal(Seq::filter);
    if keys.len() > 0 {
        let front = keys.drop_last();
        let out = keys.filter(keep);
        let at = choose|i: int| 0 <= i < out.len() && out[i] == key;
        if at < front.filter(keep).len() {
            assert(front.filter(keep)[at] == key);
            lemma_filter_stems(front, keep, key);
            let i = choose|i: int| 0 <= i < front.len() && front[i] == key;
            assert(keys[i] == key);
        } else {
            assert(keys[keys.len() - 1] == key);
        }
    }
}

proof fn lemma_filter_distinct(keys: Seq<TaskKey>, keep: spec_fn(TaskKey) -> bool)
    requires
        keys.no_duplicates(),
    ensures
        keys.filter(keep).no_duplicates(),
    decreases keys.len(),
{
    reveal(Seq::filter);
    if keys.len() > 0 {
        let front = keys.drop_last();
        lemma_filter_distinct(front, keep);
        let kept = front.filter(keep);
        if keep(keys.last()) {
            if kept.contains(keys.last()) {
                lemma_filter_stems(front, keep, keys.last());
                let i = choose|i: int| 0 <= i < front.len() && front[i] == keys.last();
                assert(keys[i] == keys[keys.len() - 1]);
            }
        }
    }
}

proof fn lemma_publish_distinct(watched: Seq<TaskKey>, frame: Seq<TaskView>, keys: Seq<TaskKey>)
    requires
        watched.no_duplicates(),
    ensures
        publish_all(watched, frame, keys).watched.no_duplicates(),
    decreases keys.len(),
{
    if keys.len() > 0 {
        lemma_publish_distinct(watched, frame, keys.drop_last());
        let before = publish_all(watched, frame, keys.drop_last());
        lemma_filter_distinct(before.watched, other_than(keys.last()));
    }
}

proof fn lemma_notices_leave_the_watched(f: KnowledgeView, notices: Seq<KnowledgeNotice>)
    ensures
        all_noticed(f, notices).watched == f.watched,
    decreases notices.len(),
{
    if notices.len() > 0 {
        lemma_notices_leave_the_watched(f, notices.drop_last());
    }
}

/// No task is ever watched twice: whatever is requested, noticed or published
/// keeps the watched tasks apart.
pub proof fn no_task_is_watched_twice(
    f: KnowledgeView,
    key: TaskKey,
    notices: Seq<KnowledgeNotice>,
    frame: Seq<TaskView>,
)
    requires
        f.wf(),
    ensures
        watching(f, key).wf(),
        all_noticed(f, notices).wf(),
        published(f, frame).wf(),
{
    lemma_notices_leave_the_watched(f, notices);
    lemma_publish_distinct(f.watched, frame, distinct(f.pending_notices));
}

/// A task that is still loading keeps waiting, and one that ended is no longer
/// watched.
pub proof fn loading_tasks_wait_and_ended_ones_leave(p: Published, frame: Seq<TaskView>, key: TaskKey)
    ensures
        known(frame, key) matches Some(view) && view.loading ==> publish_one(
            p,
            frame,
            key,
        ).pending.contains(key),
        known(frame, key) matches Some(view) && !view.loading && (view.snapshot matches Some(
            snapshot,
        ) && terminal(snapshot.status)) ==> !publish_one(p, frame, key).watched.contains(key),
{
    if known(frame, key) matches Some(view) && view.loading {
        assert(publish_one(p, frame, key).pending.last() == key);
    }
    let keep = other_than(key);
    let kept = p.watched.filter(keep);
    assert(!kept.contains(key)) by {
        if kept.contains(key) {
            let i = choose|i: int| 0 <= i < kept.len() && kept[i] == key;
            p.watched.lemma_filter_pred(keep, i);
        }
    }
}

/// What the processing says is taken in: a changed task waits to be told of, a
/// state of the connection is shown, and a fault is told at once.
pub proof fn notices_are_taken_in(f: KnowledgeView, notice: KnowledgeNotice)
    ensures
        ({
            let n = noticed(f, notice);
            &&& notice matches KnowledgeNotice::Changed(key) ==> n.pending_notices
                == f.pending_notices.push(key) && n.settings_message == f.settings_message
            &&& notice matches KnowledgeNotice::ConnectionChanged(state) ==> n.connection_state
                == Some(state) && n.settings_message is Some && n.pending_notices
                == f.pending_notices
            &&& notice matches KnowledgeNotice::ConnectionChanged(
                ConnectionState::Succeeded(message),
            ) ==> n.settings_message == Some(message@)
            &&& notice matches KnowledgeNotice::ConnectionChanged(
                ConnectionState::Failed { detail },
            ) ==> n.settings_message == Some("连接失败："@ + detail@)
            &&& notice matches KnowledgeNotice::ConnectionChanged(ConnectionState::Running)
                ==> n.settings_message == Some("正在测试 DeepSeek 连接"@)
            &&& notice is ModuleFault ==> n == f
            &&& n.watched == f.watched && n.api_key_draft == f.api_key_draft
        }),
{
}

/// Every fault is told, in its order, and nothing but faults.
pub proof fn every_fault_is_told(notices: Seq<KnowledgeNotice>, notice: KnowledgeNotice)
    ensures
        notice matches KnowledgeNotice::ModuleFault { user_message, .. } ==> faults(
            notices.push(notice),
        ) == faults(notices).push(user_message@),
        !(notice is ModuleFault) ==> faults(notices.push(notice)) == faults(notices),
        faults(Seq::empty()).len() == 0,
{
    assert(notices.push(notice).drop_last() =~= notices);
}

/// A task that was asked for is watched.
pub proof fn requested_tasks_are_watched(f: KnowledgeView, key: TaskKey, other: TaskKey)
    ensures
        watching(f, key).watched.contains(key),
        f.watched.contains(other) ==> watching(f, key).watched.contains(other),
        other != key && !f.watched.contains(other) ==> !watching(f, key).watched.contains(other),
        watching(f, key).pending_notices == f.pending_notices,
{
    let longer = f.watched.push(key);
    assert(longer[f.watched.len() as int] == key);
    if f.watched.contains(other) {
        let k = choose|k: int| 0 <= k < f.watched.len() && f.watched[k] == other;
        assert(longer[k] == other);
    }
}

/// A task that succeeded is told by what it was for, one that failed or was
/// interrupted by its own message, and one that is under way not at all.
pub proof fn ended_tasks_are_told(snapshot: TaskSnapshot)
    ensures
        snapshot.status is Succeeded && snapshot.key.kind is ResourceCompletion ==> task_text(
            snapshot,
        ) == Some("资源抓取和 AI 整理已完成"@),
        snapshot.status is Succeeded && snapshot.key.kind is ArticleSummary ==> task_text(snapshot)
            == Some("AI 总结和中文翻译已保存"@),
        snapshot.status is Failed || snapshot.status is Interrupted ==> task_text(snapshot)
            == text_opt(snapshot.user_message),
        snapshot.status is Queued || snapshot.status is Running ==> task_text(snapshot) is None,
{
}

/// A change of a task is told once its state is known; while it loads it waits,
/// and a task that goes on is still watched.
pub proof fn known_tasks_are_told(p: Published, frame: Seq<TaskView>, i: int)
    requires
        0 <= i < frame.len(),
        forall|j: int| 0 <= j < i ==> (#[trigger] frame[j]).key != frame[i].key,
    ensures
        ({
            let n = publish_one(p, frame, frame[i].key);
            &&& frame[i].loading ==> n.texts == p.texts && n.watched == p.watched && n.pending
                == p.pending.push(frame[i].key)
            &&& !frame[i].loading ==> n.pending == p.pending
            &&& !frame[i].loading ==> (frame[i].snapshot matches Some(snapshot) ==> {
                &&& task_text(snapshot) matches Some(text) ==> n.texts == p.texts.push(text)
                &&& task_text(snapshot) is None ==> n.texts == p.texts
                &&& snapshot.status is Queued || snapshot.status is Running ==> n.watched
                    == p.watched
            })
            &&& !frame[i].loading && frame[i].snapshot is None ==> n == p
        }),
{
    lemma_known(frame, i);
}

proof fn lemma_known(frame: Seq<TaskView>, i: int)
    requires
        0 <= i < frame.len(),
        forall|j: int| 0 <= j < i ==> (#[trigger] frame[j]).key != frame[i].key,
    ensures
        known(frame, frame[i].key) == Some(frame[i]),
    decreases frame.len(),
{
    if i > 0 {
        let rest = frame.skip(1);
        assert(frame[0].key != frame[i].key);
        assert(rest[i - 1] == frame[i]);
        assert forall|j: int| 0 <= j < i - 1 implies (#[trigger] rest[j]).key != rest[i - 1].key by {
            assert(rest[j] == frame[j + 1]);
        }
        lemma_known(rest, i - 1);
    }
}

/// Of several changes of a task one is told of.
pub proof fn changes_are_told_once(keys: Seq<TaskKey>, key: TaskKey)
    ensures
        distinct(keys).no_duplicates(),
        distinct(keys).contains(key) <==> keys.contains(key),
    decreases keys.len(),
{
    if keys.len() > 0 {
        let rest = keys.drop_last();
        changes_are_told_once(rest, key);
        let before = distinct(rest);
        let all = distinct(keys);
        changes_are_told_once(rest, keys.last());
        assert(keys[keys.len() - 1] == keys.last());
        if before.contains(key) {
            let k = choose|k: int| 0 <= k < before.len() && before[k] == key;
            assert(all[k] == key);
        }
        if rest.contains(key) {
            let k = choose|k: int| 0 <= k < rest.len() && rest[k] == key;
            assert(keys[k] == key);
        }
        if !before.contains(keys.last()) {
            assert(all[all.len() - 1] == keys.last());
        }
        if keys.contains(key) && key != keys.last() {
            let k = choose|k: int| 0 <= k < keys.len() && keys[k] == key;
            assert(rest[k] == key);
        }
        if all.contains(key) && !before.contains(key) {
            let k = choose|k: int| 0 <= k < all.len() && all[k] == key;
            if k < before.len() {
                assert(before[k] == key);
            }
        }
    }
}

} // verus!
