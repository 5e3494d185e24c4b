//! How long notices stay, and what is told of refreshes and maintenance.

use vstd::prelude::*;

use crate::gui_state::Notice;
use crate::number::{decimal, decimal_usize};
use crate::rss_refresh::{RefreshRunSnapshot, RefreshRunStatus};
use crate::text::{chars_of, contains, contains_text, text_opt};

verus! {

/// How long a notice stays, in milliseconds: longer when something failed.
pub open spec fn notice_time(message: Seq<char>) -> u64 {
    if reports_failure(message) {
        12_000
    } else {
        4_000
    }
}

pub open spec fn reports_failure(message: Seq<char>) -> bool {
    contains(message, "失败"@) || contains(message, "错误"@)
}

pub fn is_failure(message: &str) -> (r: bool)
    ensures
        r == reports_failure(message@),
{
    let chars = chars_of(message);
    contains_text(&chars, "失败") || contains_text(&chars, "错误")
}

/// The notice has been shown for its time.
pub open spec fn over(notice: Notice, now: u64) -> bool {
    now > notice.created && now - notice.created > notice_time(notice.message@)
}

pub fn notice_over(notice: &Notice, now: u64) -> (r: bool)
    ensures
        r == over(*notice, now),
{
    let time: u64 = if is_failure(&notice.message) { 12_000 } else { 4_000 };
    now > notice.created && now - notice.created > time
}

pub fn notice_mark(message: &str) -> (r: &'static str)
    ensures
        r@ == (if reports_failure(message@) {
            "!"@
        } else {
            "✓"@
        }),
{
    if is_failure(message) {
        "!"
    } else {
        "✓"
    }
}

// ---- refreshes -----------------------------------------------------------------------------

/// What follows from the end of a refresh.
#[derive(Debug)]
pub struct RefreshEnd {
    /// The feeds are read again.
    pub reload: bool,
    /// New articles are announced outside the window.
    pub announce: bool,
    pub notice: Option<String>,
}

/// The end of a run is handled once. `last` is the run that was handled last,
/// and `completed` the one that ended last.
pub open spec fn newly_ended(
    run_id: u64,
    completed: Option<RefreshRunSnapshot>,
    last: Option<u64>,
) -> bool {
    completed is Some && completed->0.run_id == run_id && last != Some(run_id)
}

pub open spec fn end_text(run: RefreshRunSnapshot) -> Option<Seq<char>> {
    match run.status {
        RefreshRunStatus::Degraded => Some(
            "订阅刷新完成，但有 "@ + decimal(run.failed_feed_count as nat) + " 个源失败"@,
        ),
        RefreshRunStatus::Failed => Some(
            "订阅刷新失败（"@ + decimal(run.failed_feed_count as nat) + " 个源）"@,
        ),
        _ => None,
    }
}

/// Takes in that a run changed.
pub fn refresh_ended(
    run_id: u64,
    completed: &Option<RefreshRunSnapshot>,
    last: &mut Option<u64>,
    library_open: bool,
) -> (r: Option<RefreshEnd>)
    ensures
        match r {
            Some(end) => newly_ended(run_id, *completed, *old(last)) && *final(last) == Some(
                run_id,
            ) && end.reload == library_open && end.announce == (completed->0.new_article_count > 0)
                && text_opt(end.notice) == end_text(completed->0),
            None => !newly_ended(run_id, *completed, *old(last)) && *final(last) == *old(last),
        },
{
    let run = match completed {
        Some(run) => run,
        None => {
            return None;
        },
    };
    if run.run_id != run_id {
        return None;
    }
    let handled: bool = match *last {
        Some(id) => id == run_id,
        None => false,
    };
    if handled {
        return None;
    }
    *last = Some(run_id);
    let notice: Option<String> = match run.status {
        RefreshRunStatus::Degraded => {
            let mut text = "订阅刷新完成，但有 ".to_owned();
            text.append(&decimal_usize(run.failed_feed_count));
            text.append(" 个源失败");
            Some(text)
        },
        RefreshRunStatus::Failed => {
            let mut text = "订阅刷新失败（".to_owned();
            text.append(&decimal_usize(run.failed_feed_count));
            text.append(" 个源）");
            Some(text)
        },
        _ => None,
    };
    Some(RefreshEnd { reload: library_open, announce: run.new_article_count > 0, notice })
}

/// The detail that the log gets of a run that failed: the module's before a
/// feed's.
pub open spec fn failure_detail(run: RefreshRunSnapshot) -> Seq<char> {
    match run.module_failure {
        Some(failure) => failure.technical_detail@,
        None => match first_feed_failure(run.feeds@) {
            Some(detail) => detail,
            None => "没有可用的技术详情"@,
        },
    }
}

pub open spec fn first_feed_failure(feeds: Seq<crate::rss_refresh::FeedRefresh>) -> Option<Seq<char>>
    decreases feeds.len(),
{
    if feeds.len() == 0 {
        None
    } else {
        match feeds[0].failure {
            Some(failure) => Some(failure.technical_detail@),
            None => first_feed_failure(feeds.skip(1)),
        }
    }
}

pub fn refresh_failure_detail(run: &RefreshRunSnapshot) -> (r: String)
    ensures
        r@ == failure_detail(*run),
{
    match &run.module_failure {
        Some(failure) => {
            return failure.technical_detail.clone();
        },
        None => {},
    }
    let feeds = &run.feeds;
    let mut i: usize = 0;
    proof {
        assert(feeds@.skip(0) =~= feeds@);
    }
    while i < feeds.len()
        invariant
            i <= feeds.len(),
            feeds@ == run.feeds@,
            run.module_failure is None,
            first_feed_failure(feeds@) == first_feed_failure(feeds@.skip(i as int)),
        decreases feeds.len() - i,
    {
        proof {
            assert(feeds@.skip(i as int)[0] == feeds@[i as int]);
            assert(feeds@.skip(i as int).skip(1) =~= feeds@.skip(i + 1));
        }
        match &feeds[i].failure {
            Some(failure) => {
                return failure.technical_detail.clone();
            },
            None => {},
        }
        i += 1;
    }
    "没有可用的技术详情".to_owned()
}

// ---- maintenance ------------------------------------------------------------------------------

#[derive(Debug, Clone, Copy, PartialEq, Eq, Structural)]
pub enum MaintenanceStage {
    WaitingForWriters,
    CreatingSafetyBackup,
    Executing,
    Validating,
    Reopening,
    ResumingParticipants,
    Finished,
}

#[derive(Debug, Clone, Copy, PartialEq, Eq, Structural)]
pub enum MaintenanceStatus {
    Running,
    Succeeded,
    Degraded,
    Failed,
}

pub open spec fn stage_text(stage: Option<MaintenanceStage>) -> Seq<char> {
    match stage {
        Some(MaintenanceStage::WaitingForWriters) => "正在等待后台写入停止"@,
        Some(MaintenanceStage::CreatingSafetyBackup) => "正在创建恢复前安全副本"@,
        Some(MaintenanceStage::Executing) => "正在执行资料库操作"@,
        Some(MaintenanceStage::Validating) => "正在检查资料库完整性"@,
        Some(MaintenanceStage::Reopening) => "正在重新打开资料库"@,
        Some(MaintenanceStage::ResumingParticipants) => "正在恢复后台任务"@,
        Some(MaintenanceStage::Finished) => "资料维护已结束"@,
        None => "正在同步其他窗口的资料维护状态"@,
    }
}

pub fn maintenance_stage_label(stage: Option<MaintenanceStage>) -> (r: &'static str)
    ensures
        r@ == stage_text(stage),
{
    match stage {
        Some(MaintenanceStage::WaitingForWriters) => "正在等待后台写入停止",
        Some(MaintenanceStage::CreatingSafetyBackup) => "正在创建恢复前安全副本",
        Some(MaintenanceStage::Executing) => "正在执行资料库操作",
        Some(MaintenanceStage::Validating) => "正在检查资料库完整性",
        Some(MaintenanceStage::Reopening) => "正在重新打开资料库",
        Some(MaintenanceStage::ResumingParticipants) => "正在恢复后台任务",
        Some(MaintenanceStage::Finished) => "资料维护已结束",
        None => "正在同步其他窗口的资料维护状态",
    }
}

pub open spec fn maintenance_text(status: MaintenanceStatus) -> Seq<char> {
    match status {
        MaintenanceStatus::Succeeded => "成功"@,
        MaintenanceStatus::Degraded => "部分恢复失败"@,
        MaintenanceStatus::Failed => "失败"@,
        MaintenanceStatus::Running => "进行中"@,
    }
}

/// How the last maintenance ended; nothing while one is running.
pub fn last_maintenance(status: MaintenanceStatus) -> (r: Option<String>)
    ensures
        text_opt(r) == (if status is Running {
            None
        } else {
            Some("最近一次资料维护："@ + maintenance_text(status))
        }),
{
    let mut text = "最近一次资料维护：".to_owned();
    match status {
        MaintenanceStatus::Running => {
            return None;
        },
        MaintenanceStatus::Succeeded => text.append("成功"),
        MaintenanceStatus::Degraded => text.append("部分恢复失败"),
        MaintenanceStatus::Failed => text.append("失败"),
    }
    Some(text)
}

/// What the window does with its connection to the library.
#[derive(Debug, Clone, Copy, PartialEq, Eq, Structural)]
pub enum ConnectionStep {
    Close,
    Reopen,
    Keep,
}

/// While maintenance is active anywhere, the connection stays closed.
pub fn connection_step(maintenance_active: bool, open: bool) -> (r: ConnectionStep)
    ensures
        r == (if maintenance_active && open {
            ConnectionStep::Close
        } else if !maintenance_active && !open {
            ConnectionStep::Reopen
        } else {
            ConnectionStep::Keep
        }),
{
    if maintenance_active && open {
        ConnectionStep::Close
    } else if !maintenance_active && !open {
        ConnectionStep::Reopen
    } else {
        ConnectionStep::Keep
    }
}

/// A running refresh ends once for the reader: telling it again changes
/// nothing.
pub proof fn a_refresh_ends_once(run: RefreshRunSnapshot, last: Option<u64>)
    ensures
        !newly_ended(run.run_id, Some(run), Some(run.run_id)),
        last != Some(run.run_id) ==> newly_ended(run.run_id, Some(run), last),
{
}

/// A notice stays for four seconds, and one of a failure for twelve; a message
/// tells of a failure where it speaks of one, or of an error.
pub proof fn failures_are_shown_longer(notice: Notice, now: u64)
    ensures
        reports_failure(notice.message@) <==> contains(notice.message@, "失败"@) || contains(
            notice.message@,
            "错误"@,
        ),
        reports_failure(notice.message@) ==> (over(notice, now) <==> now - notice.created
            > 12_000),
        !reports_failure(notice.message@) ==> (over(notice, now) <==> now - notice.created
            > 4_000),
{
}

/// The end of a refresh is told where feeds failed: how many, and whether any
/// did not.
pub proof fn failed_refreshes_are_told(run: RefreshRunSnapshot)
    ensures
        run.status is Degraded ==> end_text(run) == Some(
            "订阅刷新完成，但有 "@ + decimal(run.failed_feed_count as nat) + " 个源失败"@,
        ),
        run.status is Failed ==> end_text(run) == Some(
            "订阅刷新失败（"@ + decimal(run.failed_feed_count as nat) + " 个源）"@,
        ),
        !(run.status is Degraded) && !(run.status is Failed) ==> end_text(run) is None,
{
}

/// The reason of a failed refresh is that of the whole run, then that of the
/// first feed that failed.
pub proof fn the_first_reason_is_told(run: RefreshRunSnapshot)
    ensures
        run.module_failure matches Some(failure) ==> failure_detail(run)
            == failure.technical_detail@,
        run.module_failure is None ==> forall|i: int|
            0 <= i < run.feeds@.len() && (#[trigger] run.feeds@[i]).failure is Some && (forall|
                j: int,
            |
                0 <= j < i ==> (#[trigger] run.feeds@[j]).failure is None) ==> failure_detail(run)
                == run.feeds@[i].failure->0.technical_detail@,
        run.module_failure is None && (forall|j: int|
            0 <= j < run.feeds@.len() ==> (#[trigger] run.feeds@[j]).failure is None)
            ==> failure_detail(run) == "没有可用的技术详情"@,
{
    lemma_first_feed_failure(run.feeds@);
}

proof fn lemma_first_feed_failure(feeds: Seq<crate::rss_refresh::FeedRefresh>)
    ensures
        forall|i: int|
            0 <= i < feeds.len() && (#[trigger] feeds[i]).failure is Some && (forall|j: int|
                0 <= j < i ==> (#[trigger] feeds[j]).failure is None) ==> first_feed_failure(feeds)
                == Some(feeds[i].failure->0.technical_detail@),
        (forall|j: int| 0 <= j < feeds.len() ==> (#[trigger] feeds[j]).failure is None)
            ==> first_feed_failure(feeds) is None,
    decreases feeds.len(),
{
    if feeds.len() > 0 {
        let rest = feeds.skip(1);
        lemma_first_feed_failure(rest);
        assert forall|j: int| 0 <= j < rest.len() implies #[trigger] rest[j] == feeds[j + 1] by {}
        assert forall|i: int|
            0 <= i < feeds.len() && (#[trigger] feeds[i]).failure is Some && (forall|j: int|
                0 <= j < i ==> (
                #[trigger] feeds[j]).failure is None) implies first_feed_failure(feeds) == Some(
            feeds[i].failure->0.technical_detail@,
        ) by {
            if i > 0 {
                assert(feeds[0].failure is None);
                assert(rest[i - 1] == feeds[i]);
                assert forall|j: int| 0 <= j < i - 1 implies (#[trigger] rest[j]).failure is None by {
                    assert(feeds[j + 1].failure is None);
                }
            }
        }
    }
}

/// Maintenance is told stage by stage, and how it ended.
pub proof fn maintenance_is_told(stage: MaintenanceStage, status: MaintenanceStatus)
    ensures
        stage is WaitingForWriters ==> stage_text(Some(stage)) == "正在等待后台写入停止"@,
        stage is CreatingSafetyBackup ==> stage_text(Some(stage)) == "正在创建恢复前安全副本"@,
        stage is Executing ==> stage_text(Some(stage)) == "正在执行资料库操作"@,
        stage is Validating ==> stage_text(Some(stage)) == "正在检查资料库完整性"@,
        stage is Reopening ==> stage_text(Some(stage)) == "正在重新打开资料库"@,
        stage is ResumingParticipants ==> stage_text(Some(stage)) == "正在恢复后台任务"@,
        stage is Finished ==> stage_text(Some(stage)) == "资料维护已结束"@,
        stage_text(None) == "正在同步其他窗口的资料维护状态"@,
        status is Succeeded ==> maintenance_text(status) == "成功"@,
        status is Degraded ==> maintenance_text(status) == "部分恢复失败"@,
        status is Failed ==> maintenance_text(status) == "失败"@,
        status is Running ==> maintenance_text(status) == "进行中"@,
{
}

} // verus!
