use shiyue::cli::{
    add_reply, disable_reply, disposition_name, enable_reply, interval_reply, list_feeds,
    primary_identity, refresh_exit_code, refresh_failures, remove_reply, resource_failure,
    resource_request, retry_missing, retry_refused, search_failure, search_open_failure,
    search_request, search_warning, subscription_refresh_exit_code, task_failure, update_reply,
    wait_failed, ResourceResultType, ResourceScope,
};
use shiyue::feed_subscription::{ChangeDisposition, InitialRefreshOutcome};
use shiyue::knowledge_workflow::types::{
    ErrorKind, RequestDisposition, TaskKey, TaskKind, TaskSnapshot, TaskStatus,
};
use shiyue::library_search::{
    PrimaryIdentity, ResultType, SearchFailureKind, SearchOrigin, SearchScope, SearchWarning,
};
use shiyue::model::Feed;
use shiyue::resource_library::{ResourcePrivacy, ResourceSource};
use shiyue::rss_refresh::{FeedRefresh, RefreshFailure, RefreshRunSnapshot, RefreshRunStatus};

fn feed() -> Feed {
    Feed {
        id: 7,
        url: "https://example.com/feed.xml".into(),
        title: Some("Example".into()),
        last_fetch: None,
        next_fetch: 0,
        last_error: None,
        fail_count: 0,
        disabled: false,
        interval_secs: None,
    }
}

fn run(status: RefreshRunStatus) -> RefreshRunSnapshot {
    RefreshRunSnapshot {
        run_id: 1,
        status,
        target_count: 3,
        completed_count: 3,
        failed_feed_count: 1,
        new_article_count: 12,
        feeds: vec![FeedRefresh {
            feed_id: 7,
            url: "https://example.com/feed.xml".into(),
            title: None,
            failure: Some(RefreshFailure {
                kind: "network".into(),
                technical_detail: "timeout".into(),
            }),
        }],
        module_failure: None,
    }
}

fn degraded(detail: Option<&str>) -> Option<InitialRefreshOutcome> {
    Some(InitialRefreshOutcome::Degraded {
        technical_detail: detail.map(|d| d.to_string()),
    })
}

#[test]
fn exit_codes_tell_how_a_refresh_went() {
    assert_eq!(refresh_exit_code(RefreshRunStatus::Succeeded), 0);
    assert_eq!(refresh_exit_code(RefreshRunStatus::Degraded), 2);
    assert_eq!(refresh_exit_code(RefreshRunStatus::Failed), 1);
    assert_eq!(refresh_exit_code(RefreshRunStatus::Interrupted), 1);
    assert_eq!(subscription_refresh_exit_code(&None), 0);
    assert_eq!(subscription_refresh_exit_code(&degraded(None)), 2);
}

#[test]
fn adding_a_feed_is_told() {
    let fine = add_reply(&feed(), &Some(InitialRefreshOutcome::Queued));
    assert_eq!(fine.out, vec!["已添加 #7: Example"]);
    assert!(fine.err.is_empty());
    assert_eq!(fine.code, 0);

    let failed = add_reply(&feed(), &degraded(Some("timeout")));
    assert_eq!(failed.out, vec!["已添加 #7，但首次抓取失败: timeout"]);
    assert_eq!(
        failed.err,
        vec!["刷新失败 #7 https://example.com/feed.xml: timeout"]
    );
    assert_eq!(failed.code, 2);

    let silent = add_reply(&feed(), &degraded(None));
    assert_eq!(silent.out, vec!["已添加 #7，但首次抓取失败: 首次抓取失败"]);
}

#[test]
fn changes_of_feeds_are_told() {
    assert_eq!(remove_reply(ChangeDisposition::Deleted).out, vec!["已删除"]);
    assert_eq!(
        remove_reply(ChangeDisposition::NotFound).out,
        vec!["未找到该源"]
    );
    assert_eq!(
        interval_reply(7, 1800, ChangeDisposition::Changed).out,
        vec!["#7 间隔已设为 1800s"]
    );
    assert_eq!(
        interval_reply(7, 1800, ChangeDisposition::NotFound).out,
        vec!["未找到 #7"]
    );
    let enabled = enable_reply(7, ChangeDisposition::Changed, &degraded(None));
    assert_eq!(enabled.out, vec!["已启用"]);
    assert_eq!(enabled.err, vec!["刷新失败 #7: 订阅刷新失败"]);
    assert_eq!(enabled.code, 2);
    assert_eq!(
        enable_reply(7, ChangeDisposition::NotFound, &None).out,
        vec!["未找到"]
    );
    assert_eq!(disable_reply(ChangeDisposition::Changed).out, vec!["已禁用"]);
}

#[test]
fn a_refresh_is_summed_up() {
    let reply = update_reply(&run(RefreshRunStatus::Degraded));
    assert_eq!(
        reply.out,
        vec!["刷新 3 个订阅，完成 3 个，失败 1 个，新增 12 篇"]
    );
    assert_eq!(
        reply.err,
        vec!["刷新失败 #7 https://example.com/feed.xml [network]: timeout"]
    );
    assert_eq!(reply.code, 2);
    let mut broken = run(RefreshRunStatus::Failed);
    broken.module_failure = Some(RefreshFailure {
        kind: "storage".into(),
        technical_detail: "disk".into(),
    });
    assert_eq!(
        refresh_failures(&broken).last().unwrap(),
        "刷新模块失败 [storage]: disk"
    );
}

#[test]
fn feeds_are_listed_one_by_one() {
    let reply = list_feeds(&[(feed(), 3)]);
    assert_eq!(reply.code, 0);
    assert_eq!(reply.out.len(), 1);
    assert!(reply.out[0].starts_with("#7   未读 3    "));
    assert!(reply.out[0].ends_with(" Example"));
    assert_eq!(
        list_feeds(&[]).out,
        vec!["还没有订阅源，用 `shiyue-cli add <url>` 添加。"]
    );
}

#[test]
fn resources_come_from_the_agent() {
    let request = resource_request("https://example.com".into(), Some("note".into()), true);
    assert_eq!(request.privacy, ResourcePrivacy::Private);
    assert_eq!(request.source, ResourceSource::CliAgent);
    assert_eq!(request.private_note.as_deref(), Some("note"));
    assert_ne!(
        resource_failure("missing".into(), true).exit_code,
        resource_failure("broken".into(), false).exit_code
    );
}

#[test]
fn searches_carry_their_scope() {
    let request = search_request(
        "rust".into(),
        ResourceResultType::Article,
        ResourceScope::Archive,
        5,
        true,
    );
    assert_eq!(request.query, "rust");
    assert_eq!(request.scope, SearchScope::Archive);
    assert_eq!(request.result_type, ResultType::Article);
    assert_eq!(request.origin, SearchOrigin::Agent);
    assert_eq!(request.limit, 5);
    assert_eq!(
        search_request(
            "rust".into(),
            ResourceResultType::All,
            ResourceScope::All,
            5,
            false
        )
        .origin,
        SearchOrigin::Human
    );
}

#[test]
fn search_failures_are_told_apart() {
    let input = search_failure(SearchFailureKind::Input, "empty".into(), "detail".into());
    let storage = search_failure(SearchFailureKind::Storage, "disk".into(), "detail".into());
    assert_ne!(input.code, storage.code);
    assert_ne!(input.exit_code, storage.exit_code);
    assert_eq!(input.message, "empty");
    assert!(search_open_failure("locked".into())
        .technical_detail
        .unwrap()
        .contains("locked"));
    let warning = search_warning(&SearchWarning::HistoryNotRecorded {
        technical_detail: "disk".into(),
    });
    assert_eq!(warning.technical_detail, "disk");
    assert_eq!(
        primary_identity(PrimaryIdentity::Resource(3)),
        ("resource", 3)
    );
    assert_eq!(
        primary_identity(PrimaryIdentity::Article(4)),
        ("article", 4)
    );
}

fn snapshot(status: TaskStatus, error_kind: Option<ErrorKind>) -> TaskSnapshot {
    TaskSnapshot {
        task_id: 1,
        key: TaskKey::new(TaskKind::ResourceCompletion, 5),
        status,
        current_stage: None,
        attempt_number: 1,
        automatic_retry: false,
        error_kind,
        user_message: Some("message".into()),
        technical_detail: Some("detail".into()),
        change_seq: 1,
    }
}

#[test]
fn ended_tasks_give_their_exit_codes() {
    assert!(task_failure(&snapshot(TaskStatus::Succeeded, None)).is_none());
    let codes: Vec<i32> = [
        ErrorKind::Input,
        ErrorKind::Authentication,
        ErrorKind::Security,
        ErrorKind::Transient,
        ErrorKind::Storage,
    ]
    .iter()
    .map(|kind| {
        task_failure(&snapshot(TaskStatus::Failed, Some(*kind)))
            .unwrap()
            .exit_code
    })
    .collect();
    assert_eq!(codes, vec![3, 4, 4, 5, 1]);
    let failure = task_failure(&snapshot(TaskStatus::Failed, Some(ErrorKind::Transient))).unwrap();
    assert!(failure.retryable);
    assert_eq!(failure.message, "message");
}

#[test]
fn retries_are_named() {
    assert_eq!(disposition_name(RequestDisposition::Created), "created");
    assert_eq!(disposition_name(RequestDisposition::Existing), "existing");
    assert_eq!(disposition_name(RequestDisposition::Retried), "retried");
    assert_eq!(retry_missing("gone".into()).message, "gone");
    assert_eq!(retry_refused("busy".into()).message, "busy");
    let waited = wait_failed("WORKFLOW_WAIT_TIMEOUT: slow".into()).unwrap();
    assert_eq!(waited.exit_code, 5);
    assert_eq!(waited.code, "WORKFLOW_WAIT_TIMEOUT");
    assert!(wait_failed("disk".into()).is_none());
}
