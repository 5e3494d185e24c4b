//! What the command line answers.

use vstd::prelude::*;

use crate::feed_subscription::{ChangeDisposition, InitialRefreshOutcome};
use crate::knowledge_workflow::types::{
    error_code, ErrorKind, RequestDisposition, TaskSnapshot, TaskStatus,
};
use crate::library_search::{
    PrimaryIdentity, ResultType, SearchFailureKind, SearchOrigin, SearchRequest, SearchScope,
    SearchWarning,
};
use crate::model::{copy_text, Feed};
use crate::number::{decimal, decimal_i64, decimal_usize, signed};
use crate::resource_library::{CreateResource, ResourceKind, ResourcePrivacy, ResourceSource};
use crate::rss_refresh::{FeedRefresh, RefreshRunSnapshot, RefreshRunStatus};
use crate::text::{chars_of, contains, contains_text, lemma_texts_push, string_of, text_opt, texts};

verus! {

/// The lines that a command prints, and its exit code.
#[derive(Debug)]
pub struct CliReply {
    pub out: Vec<String>,
    pub err: Vec<String>,
    pub code: i32,
}

pub ghost struct ReplyView {
    pub out: Seq<Seq<char>>,
    pub err: Seq<Seq<char>>,
    pub code: i32,
}

impl View for CliReply {
    type V = ReplyView;

    open spec fn view(&self) -> ReplyView {
        ReplyView { out: texts(self.out@), err: texts(self.err@), code: self.code }
    }
}

fn line(text: String) -> (r: Vec<String>)
    ensures
        texts(r@) == seq![text@],
{
    let mut lines: Vec<String> = Vec::new();
    lines.push(text);
    proof {
        assert(texts(lines@) =~= seq![text@]);
    }
    lines
}

fn no_lines() -> (r: Vec<String>)
    ensures
        texts(r@) == Seq::<Seq<char>>::empty(),
{
    let lines: Vec<String> = Vec::new();
    proof {
        assert(texts(lines@) =~= Seq::<Seq<char>>::empty());
    }
    lines
}

fn one_line(text: &str) -> (r: CliReply)
    ensures
        r@ == (ReplyView { out: seq![text@], err: Seq::empty(), code: 0 }),
{
    CliReply { out: line(text.to_owned()), err: no_lines(), code: 0 }
}

// ---- exit codes -----------------------------------------------------------------------------

/// Everything fetched is a success, some failures are a success in part, and
/// a run that has not ended counts as failed.
pub open spec fn run_code(status: RefreshRunStatus) -> i32 {
    match status {
        RefreshRunStatus::Succeeded => 0,
        RefreshRunStatus::Degraded => 2,
        _ => 1,
    }
}

pub fn refresh_exit_code(status: RefreshRunStatus) -> (r: i32)
    ensures
        r == run_code(status),
{
    match status {
        RefreshRunStatus::Succeeded => 0,
        RefreshRunStatus::Degraded => 2,
        RefreshRunStatus::Failed | RefreshRunStatus::Interrupted => 1,
        RefreshRunStatus::Fetching | RefreshRunStatus::Committing => 1,
    }
}

pub open spec fn change_code(refresh: Option<InitialRefreshOutcome>) -> i32 {
    if refresh matches Some(InitialRefreshOutcome::Degraded { .. }) {
        2
    } else {
        0
    }
}

pub fn subscription_refresh_exit_code(refresh: &Option<InitialRefreshOutcome>) -> (r: i32)
    ensures
        r == change_code(*refresh),
{
    match refresh {
        Some(InitialRefreshOutcome::Degraded { .. }) => 2,
        _ => 0,
    }
}

pub open spec fn failure_code(kind: ErrorKind) -> i32 {
    match kind {
        ErrorKind::Input => 3,
        ErrorKind::Authentication | ErrorKind::Security => 4,
        ErrorKind::Transient => 5,
        _ => 1,
    }
}

// ---- subscriptions ----------------------------------------------------------------------------

pub open spec fn shown_feed(feed: Feed) -> Seq<char> {
    match feed.title {
        Some(title) => title@,
        None => feed.url@,
    }
}

/// Why the first fetch failed: the refresh says it, or else the feed.
pub open spec fn first_fetch_error(detail: Option<String>, feed: Feed) -> Seq<char> {
    match detail {
        Some(text) => text@,
        None => match feed.last_error {
            Some(text) => text@,
            None => "首次抓取失败"@,
        },
    }
}

pub open spec fn added_reply(feed: Feed, refresh: Option<InitialRefreshOutcome>) -> ReplyView {
    match refresh {
        Some(InitialRefreshOutcome::Degraded { technical_detail }) => {
            let error = first_fetch_error(technical_detail, feed);
            ReplyView {
                out: seq!["已添加 #"@ + signed(feed.id as int) + "，但首次抓取失败: "@ + error],
                err: seq!["刷新失败 #"@ + signed(feed.id as int) + " "@ + feed.url@ + ": "@ + error],
                code: 2,
            }
        },
        _ => ReplyView {
            out: seq!["已添加 #"@ + signed(feed.id as int) + ": "@ + shown_feed(feed)],
            err: Seq::empty(),
            code: 0,
        },
    }
}

pub fn add_reply(feed: &Feed, refresh: &Option<InitialRefreshOutcome>) -> (r: CliReply)
    ensures
        r@ == added_reply(*feed, *refresh),
{
    let id = decimal_i64(feed.id);
    let mut out = "已添加 #".to_owned();
    out.append(&id);
    match refresh {
        Some(InitialRefreshOutcome::Degraded { technical_detail }) => {
            let error: String = match technical_detail {
                Some(text) => text.clone(),
                None => match &feed.last_error {
                    Some(text) => text.clone(),
                    None => "首次抓取失败".to_owned(),
                },
            };
            out.append("，但首次抓取失败: ");
            out.append(&error);
            let mut err = "刷新失败 #".to_owned();
            err.append(&id);
            err.append(" ");
            err.append(&feed.url);
            err.append(": ");
            err.append(&error);
            CliReply { out: line(out), err: line(err), code: 2 }
        },
        _ => {
            out.append(": ");
            match &feed.title {
                Some(title) => out.append(title),
                None => out.append(&feed.url),
            }
            CliReply { out: line(out), err: no_lines(), code: 0 }
        },
    }
}

pub fn remove_reply(disposition: ChangeDisposition) -> (r: CliReply)
    ensures
        r@ == (ReplyView {
            out: seq![
                if disposition is Deleted {
                    "已删除"@
                } else {
                    "未找到该源"@
                },
            ],
            err: Seq::empty(),
            code: 0,
        }),
{
    match disposition {
        ChangeDisposition::Deleted => one_line("已删除"),
        _ => one_line("未找到该源"),
    }
}

pub fn interval_reply(id: i64, seconds: i64, disposition: ChangeDisposition) -> (r: CliReply)
    ensures
        r@ == (ReplyView {
            out: seq![
                if disposition is NotFound {
                    "未找到 #"@ + signed(id as int)
                } else {
                    "#"@ + signed(id as int) + " 间隔已设为 "@ + signed(seconds as int) + "s"@
                },
            ],
            err: Seq::empty(),
            code: 0,
        }),
{
    match disposition {
        ChangeDisposition::NotFound => {
            let mut text = "未找到 #".to_owned();
            text.append(&decimal_i64(id));
            one_line(&text)
        },
        _ => {
            let mut text = "#".to_owned();
            text.append(&decimal_i64(id));
            text.append(" 间隔已设为 ");
            text.append(&decimal_i64(seconds));
            text.append("s");
            one_line(&text)
        },
    }
}

pub open spec fn enabled_reply(
    id: i64,
    disposition: ChangeDisposition,
    refresh: Option<InitialRefreshOutcome>,
) -> ReplyView {
    if disposition is NotFound {
        ReplyView { out: seq!["未找到"@], err: Seq::empty(), code: 0 }
    } else {
        ReplyView {
            out: seq!["已启用"@],
            err: match refresh {
                Some(InitialRefreshOutcome::Degraded { technical_detail }) => seq![
                    "刷新失败 #"@ + signed(id as int) + ": "@ + (match technical_detail {
                        Some(text) => text@,
                        None => "订阅刷新失败"@,
                    }),
                ],
                _ => Seq::empty(),
            },
            code: change_code(refresh),
        }
    }
}

pub fn enable_reply(
    id: i64,
    disposition: ChangeDisposition,
    refresh: &Option<InitialRefreshOutcome>,
) -> (r: CliReply)
    ensures
        r@ == enabled_reply(id, disposition, *refresh),
{
    match disposition {
        ChangeDisposition::NotFound => one_line("未找到"),
        _ => {
            let err: Vec<String> = match refresh {
                Some(InitialRefreshOutcome::Degraded { technical_detail }) => {
                    let mut text = "刷新失败 #".to_owned();
                    text.append(&decimal_i64(id));
                    text.append(": ");
                    match technical_detail {
                        Some(detail) => text.append(detail),
                        None => text.append("订阅刷新失败"),
                    }
                    line(text)
                },
                _ => no_lines(),
            };
            CliReply {
                out: line("已启用".to_owned()),
                err,
                code: subscription_refresh_exit_code(refresh),
            }
        },
    }
}

pub fn disable_reply(disposition: ChangeDisposition) -> (r: CliReply)
    ensures
        r@ == (ReplyView {
            out: seq![
                if disposition is NotFound {
                    "未找到"@
                } else {
                    "已禁用"@
                },
            ],
            err: Seq::empty(),
            code: 0,
        }),
{
    match disposition {
        ChangeDisposition::NotFound => one_line("未找到"),
        _ => one_line("已禁用"),
    }
}

// ---- refreshing ---------------------------------------------------------------------------------

pub open spec fn run_text(run: RefreshRunSnapshot) -> Seq<char> {
    "刷新 "@ + decimal(run.target_count as nat) + " 个订阅，完成 "@ + decimal(
        run.completed_count as nat,
    ) + " 个，失败 "@ + decimal(run.failed_feed_count as nat) + " 个，新增 "@ + decimal(
        run.new_article_count as nat,
    ) + " 篇"@
}

/// The line on one feed that failed.
pub open spec fn feed_failure_text(feed: FeedRefresh) -> Seq<char> {
    "刷新失败 #"@ + signed(feed.feed_id as int) + " "@ + (match feed.title {
        Some(title) => title@,
        None => feed.url@,
    }) + " ["@ + feed.failure->0.kind@ + "]: "@ + feed.failure->0.technical_detail@
}

pub open spec fn feed_failures(feeds: Seq<FeedRefresh>) -> Seq<Seq<char>>
    decreases feeds.len(),
{
    if feeds.len() == 0 {
        Seq::empty()
    } else {
        let earlier = feed_failures(feeds.drop_last());
        if feeds.last().failure is Some {
            earlier.push(feed_failure_text(feeds.last()))
        } else {
            earlier
        }
    }
}

/// The failures of a run: each feed's, then the module's own.
pub open spec fn run_failures(run: RefreshRunSnapshot) -> Seq<Seq<char>> {
    let feeds = feed_failures(run.feeds@);
    match run.module_failure {
        Some(failure) => feeds.push(
            "刷新模块失败 ["@ + failure.kind@ + "]: "@ + failure.technical_detail@,
        ),
        None => feeds,
    }
}

pub fn refresh_failures(run: &RefreshRunSnapshot) -> (r: Vec<String>)
    ensures
        texts(r@) == run_failures(*run),
{
    let feeds = &run.feeds;
    let mut lines = no_lines();
    let mut i: usize = 0;
    while i < feeds.len()
        invariant
            i <= feeds.len(),
            texts(lines@) == feed_failures(feeds@.take(i as int)),
        decreases feeds.len() - i,
    {
        proof {
            assert(feeds@.take(i + 1).drop_last() =~= feeds@.take(i as int));
            assert(feeds@.take(i + 1).last() == feeds@[i as int]);
        }
        match &feeds[i].failure {
            Some(failure) => {
                let mut text = "刷新失败 #".to_owned();
                text.append(&decimal_i64(feeds[i].feed_id));
                text.append(" ");
                match &feeds[i].title {
                    Some(title) => text.append(title),
                    None => text.append(&feeds[i].url),
                }
                text.append(" [");
                text.append(&failure.kind);
                text.append("]: ");
                text.append(&failure.technical_detail);
                proof {
                    lemma_texts_push(lines@, text);
                }
                lines.push(text);
            },
            None => {},
        }
        i += 1;
    }
    proof {
        assert(feeds@.take(feeds@.len() as int) =~= feeds@);
    }
    match &run.module_failure {
        Some(failure) => {
            let mut text = "刷新模块失败 [".to_owned();
            text.append(&failure.kind);
            text.append("]: ");
            text.append(&failure.technical_detail);
            proof {
                lemma_texts_push(lines@, text);
            }
            lines.push(text);
        },
        None => {},
    }
    lines
}

pub fn update_reply(run: &RefreshRunSnapshot) -> (r: CliReply)
    ensures
        r@ == (ReplyView {
            out: seq![run_text(*run)],
            err: run_failures(*run),
            code: run_code(run.status),
        }),
{
    let mut text = "刷新 ".to_owned();
    text.append(&decimal_usize(run.target_count));
    text.append(" 个订阅，完成 ");
    text.append(&decimal_usize(run.completed_count));
    text.append(" 个，失败 ");
    text.append(&decimal_usize(run.failed_feed_count));
    text.append(" 个，新增 ");
    text.append(&decimal_usize(run.new_article_count));
    text.append(" 篇");
    CliReply { out: line(text), err: refresh_failures(run), code: refresh_exit_code(run.status) }
}

// ---- listing --------------------------------------------------------------------------------------

/// A text with blanks behind it up to a width.
pub open spec fn padded(text: Seq<char>, width: nat) -> Seq<char>
    decreases width - text.len(),
{
    if text.len() >= width {
        text
    } else {
        padded(text.push(' '), width)
    }
}

fn pad(text: &str, width: usize) -> (r: String)
    ensures
        r@ == padded(text@, width as nat),
{
    let mut chars = chars_of(text);
    while chars.len() < width
        invariant
            padded(text@, width as nat) == padded(chars@, width as nat),
        decreases width - chars.len(),
    {
        chars.push(' ');
    }
    string_of(&chars)
}

pub open spec fn feed_flag(feed: Feed) -> Seq<char> {
    if feed.disabled {
        "[已禁用]"@
    } else if feed.fail_count > 0 {
        "[⚠]"@
    } else {
        ""@
    }
}

pub open spec fn feed_line(feed: Feed, unread: i64) -> Seq<char> {
    "#"@ + padded(signed(feed.id as int), 3) + " 未读 "@ + padded(signed(unread as int), 4) + " "@
        + feed_flag(feed) + " "@ + shown_feed(feed)
}

pub open spec fn feed_lines(feeds: Seq<(Feed, i64)>) -> Seq<Seq<char>> {
    if feeds.len() == 0 {
        seq!["还没有订阅源，用 `shiyue-cli add <url>` 添加。"@]
    } else {
        feeds.map_values(|f: (Feed, i64)| feed_line(f.0, f.1))
    }
}

fn write_feed_line(feed: &Feed, unread: i64) -> (r: String)
    ensures
        r@ == feed_line(*feed, unread),
{
    let mut text = "#".to_owned();
    text.append(&pad(&decimal_i64(feed.id), 3));
    text.append(" 未读 ");
    text.append(&pad(&decimal_i64(unread), 4));
    text.append(" ");
    if feed.disabled {
        text.append("[已禁用]");
    } else if feed.fail_count > 0 {
        text.append("[⚠]");
    } else {
        text.append("");
    }
    text.append(" ");
    match &feed.title {
        Some(title) => text.append(title),
        None => text.append(&feed.url),
    }
    text
}

pub fn list_feeds(feeds: &[(Feed, i64)]) -> (r: CliReply)
    ensures
        r@ == (ReplyView { out: feed_lines(feeds@), err: Seq::empty(), code: 0 }),
        feeds@.len() > 0 ==> r.out@.len() == feeds@.len(),
        forall|i: int|
            0 <= i < feeds@.len() ==> (#[trigger] r.out@[i])@ == "#"@ + padded(
                signed(feeds@[i].0.id as int),
                3,
            ) + " 未读 "@ + padded(signed(feeds@[i].1 as int), 4) + " "@ + (if feeds@[i].0.disabled {
                "[已禁用]"@
            } else if feeds@[i].0.fail_count > 0 {
                "[⚠]"@
            } else {
                ""@
            }) + " "@ + (match feeds@[i].0.title {
                Some(title) => title@,
                None => feeds@[i].0.url@,
            }),
{
    if feeds.len() == 0 {
        return one_line("还没有订阅源，用 `shiyue-cli add <url>` 添加。");
    }
    let mut lines: Vec<String> = Vec::new();
    let mut i: usize = 0;
    while i < feeds.len()
        invariant
            i <= feeds.len(),
            lines@.len() == i,
            forall|k: int|
                0 <= k < i ==> (#[trigger] lines@[k])@ == feed_line(feeds@[k].0, feeds@[k].1),
        decreases feeds.len() - i,
    {
        lines.push(write_feed_line(&feeds[i].0, feeds[i].1));
        i += 1;
    }
    proof {
        assert(texts(lines@) =~= feed_lines(feeds@));
    }
    CliReply { out: lines, err: no_lines(), code: 0 }
}

// ---- errors for programs ----------------------------------------------------------------------------

/// An error as a program reads it.
#[derive(Debug)]
pub struct ErrorReply {
    pub schema_version: u32,
    pub code: &'static str,
    pub message: String,
    pub technical_detail: Option<String>,
    pub retryable: bool,
    pub exit_code: i32,
}

pub ghost struct ErrorView {
    pub schema_version: u32,
    pub code: Seq<char>,
    pub message: Seq<char>,
    pub technical_detail: Option<Seq<char>>,
    pub retryable: bool,
    pub exit_code: i32,
}

impl View for ErrorReply {
    type V = ErrorView;

    open spec fn view(&self) -> ErrorView {
        ErrorView {
            schema_version: self.schema_version,
            code: self.code@,
            message: self.message@,
            technical_detail: text_opt(self.technical_detail),
            retryable: self.retryable,
            exit_code: self.exit_code,
        }
    }
}

/// The resource that a command line adds.
pub fn resource_request(url: String, note: Option<String>, private: bool) -> (r: CreateResource)
    ensures
        r.url@ == url@,
        r.parent_resource_id is None,
        r.linked_article_id is None,
        r.kind is Page,
        r.title is None,
        text_opt(r.private_note) == text_opt(note),
        r.privacy is Private <==> private,
        r.source is CliAgent,
        r.manual_rating is None,
{
    CreateResource {
        url,
        parent_resource_id: None,
        linked_article_id: None,
        kind: ResourceKind::Page,
        title: None,
        private_note: note,
        privacy: if private {
            ResourcePrivacy::Private
        } else {
            ResourcePrivacy::Public
        },
        source: ResourceSource::CliAgent,
        manual_rating: None,
    }
}

pub fn resource_failure(message: String, not_found: bool) -> (r: ErrorReply)
    ensures
        r@ == (ErrorView {
            schema_version: 1,
            code: if not_found {
                "RESOURCE_NOT_FOUND"@
            } else {
                "RESOURCE_ERROR"@
            },
            message: message@,
            technical_detail: None,
            retryable: false,
            exit_code: if not_found {
                3
            } else {
                1
            },
        }),
{
    ErrorReply {
        schema_version: 1,
        code: if not_found {
            "RESOURCE_NOT_FOUND"
        } else {
            "RESOURCE_ERROR"
        },
        message,
        technical_detail: None,
        retryable: false,
        exit_code: if not_found {
            3
        } else {
            1
        },
    }
}

// ---- searching ------------------------------------------------------------------------------------------

#[derive(Debug, Clone, Copy, PartialEq, Eq, Structural)]
pub enum ResourceScope {
    Curated,
    All,
    Archive,
}

#[derive(Debug, Clone, Copy, PartialEq, Eq, Structural)]
pub enum ResourceResultType {
    All,
    Resource,
    Article,
}

pub open spec fn scope_of(scope: ResourceScope) -> SearchScope {
    match scope {
        ResourceScope::Curated => SearchScope::Curated,
        ResourceScope::All => SearchScope::AllArticles,
        ResourceScope::Archive => SearchScope::Archive,
    }
}

pub open spec fn type_of(result_type: ResourceResultType) -> ResultType {
    match result_type {
        ResourceResultType::All => ResultType::All,
        ResourceResultType::Resource => ResultType::Resource,
        ResourceResultType::Article => ResultType::Article,
    }
}

pub fn search_request(
    query: String,
    result_type: ResourceResultType,
    scope: ResourceScope,
    limit: usize,
    agent: bool,
) -> (r: SearchRequest)
    ensures
        r.query@ == query@,
        r.scope == scope_of(scope),
        r.result_type == type_of(result_type),
        r.origin is Agent <==> agent,
        r.limit == limit,
{
    SearchRequest {
        query,
        scope: match scope {
            ResourceScope::Curated => SearchScope::Curated,
            ResourceScope::All => SearchScope::AllArticles,
            ResourceScope::Archive => SearchScope::Archive,
        },
        result_type: match result_type {
            ResourceResultType::All => ResultType::All,
            ResourceResultType::Resource => ResultType::Resource,
            ResourceResultType::Article => ResultType::Article,
        },
        origin: if agent {
            SearchOrigin::Agent
        } else {
            SearchOrigin::Human
        },
        limit,
    }
}

/// The library is being changed, so that it cannot be opened.
pub open spec fn under_maintenance(detail: Seq<char>) -> bool {
    contains(detail, "migration"@) || contains(detail, "schema"@) || contains(
        detail,
        "user_version"@,
    )
}

/// The library could not be opened.
pub fn search_open_failure(detail: String) -> (r: ErrorReply)
    ensures
        r@ == (ErrorView {
            schema_version: 2,
            code: if under_maintenance(detail@) {
                "LIBRARY_SEARCH_MAINTENANCE"@
            } else {
                "LIBRARY_SEARCH_STORAGE"@
            },
            message: if under_maintenance(detail@) {
                "资料库正在维护或需要迁移"@
            } else {
                "无法打开本地资料库"@
            },
            technical_detail: Some(detail@),
            retryable: true,
            exit_code: 1,
        }),
{
    let chars = chars_of(&detail);
    let maintenance: bool = contains_text(&chars, "migration") || contains_text(&chars, "schema")
        || contains_text(&chars, "user_version");
    ErrorReply {
        schema_version: 2,
        code: if maintenance {
            "LIBRARY_SEARCH_MAINTENANCE"
        } else {
            "LIBRARY_SEARCH_STORAGE"
        },
        message: if maintenance {
            "资料库正在维护或需要迁移".to_owned()
        } else {
            "无法打开本地资料库".to_owned()
        },
        technical_detail: Some(detail),
        retryable: true,
        exit_code: 1,
    }
}

pub open spec fn search_code(kind: SearchFailureKind) -> Seq<char> {
    match kind {
        SearchFailureKind::Input => "LIBRARY_SEARCH_INPUT"@,
        SearchFailureKind::Maintenance => "LIBRARY_SEARCH_MAINTENANCE"@,
        SearchFailureKind::Storage => "LIBRARY_SEARCH_STORAGE"@,
        SearchFailureKind::Index => "LIBRARY_SEARCH_INDEX"@,
    }
}

/// The search failed. A wrong query is the caller's fault; a busy or broken
/// library is worth another try.
pub fn search_failure(kind: SearchFailureKind, message: String, detail: String) -> (r: ErrorReply)
    ensures
        r@ == (ErrorView {
            schema_version: 2,
            code: search_code(kind),
            message: message@,
            technical_detail: Some(detail@),
            retryable: kind is Maintenance || kind is Storage,
            exit_code: if kind is Input {
                2
            } else {
                1
            },
        }),
{
    ErrorReply {
        schema_version: 2,
        code: match kind {
            SearchFailureKind::Input => "LIBRARY_SEARCH_INPUT",
            SearchFailureKind::Maintenance => "LIBRARY_SEARCH_MAINTENANCE",
            SearchFailureKind::Storage => "LIBRARY_SEARCH_STORAGE",
            SearchFailureKind::Index => "LIBRARY_SEARCH_INDEX",
        },
        message,
        technical_detail: Some(detail),
        retryable: match kind {
            SearchFailureKind::Maintenance | SearchFailureKind::Storage => true,
            _ => false,
        },
        exit_code: match kind {
            SearchFailureKind::Input => 2,
            _ => 1,
        },
    }
}

pub open spec fn identity_kind(primary: PrimaryIdentity) -> Seq<char> {
    match primary {
        PrimaryIdentity::Resource(_) => "resource"@,
        PrimaryIdentity::Article(_) => "article"@,
    }
}

/// What a result is, and its number.
pub fn primary_identity(primary: PrimaryIdentity) -> (r: (&'static str, i64))
    ensures
        r.0@ == identity_kind(primary),
        primary == PrimaryIdentity::Resource(r.1) || primary == PrimaryIdentity::Article(r.1),
{
    match primary {
        PrimaryIdentity::Resource(id) => ("resource", id),
        PrimaryIdentity::Article(id) => ("article", id),
    }
}

/// A warning as a program reads it.
#[derive(Debug)]
pub struct WarningReply {
    pub code: &'static str,
    pub message: &'static str,
    pub technical_detail: String,
}

pub fn search_warning(warning: &SearchWarning) -> (r: WarningReply)
    ensures
        r.code@ == "SEARCH_HISTORY_NOT_RECORDED"@,
        r.message@ == "搜索结果有效，但历史记录没有保存"@,
        r.technical_detail@ == warning->technical_detail@,
{
    match warning {
        SearchWarning::HistoryNotRecorded { technical_detail } => WarningReply {
            code: "SEARCH_HISTORY_NOT_RECORDED",
            message: "搜索结果有效，但历史记录没有保存",
            technical_detail: technical_detail.clone(),
        },
    }
}

// ---- retrying ----------------------------------------------------------------------------------------------

pub open spec fn disposition_text(disposition: RequestDisposition) -> Seq<char> {
    match disposition {
        RequestDisposition::Created => "created"@,
        RequestDisposition::Existing => "existing"@,
        RequestDisposition::Retried => "retried"@,
    }
}

pub fn disposition_name(disposition: RequestDisposition) -> (r: &'static str)
    ensures
        r@ == disposition_text(disposition),
{
    match disposition {
        RequestDisposition::Created => "created",
        RequestDisposition::Existing => "existing",
        RequestDisposition::Retried => "retried",
    }
}

/// The resource to process again is missing.
pub fn retry_missing(message: String) -> (r: ErrorReply)
    ensures
        r@ == (ErrorView {
            schema_version: 1,
            code: "RESOURCE_NOT_FOUND"@,
            message: message@,
            technical_detail: None,
            retryable: false,
            exit_code: 3,
        }),
{
    resource_failure(message, true)
}

/// The request for processing was refused.
pub fn retry_refused(message: String) -> (r: ErrorReply)
    ensures
        r@ == (ErrorView {
            schema_version: 1,
            code: "WORKFLOW_REQUEST_FAILED"@,
            message: message@,
            technical_detail: None,
            retryable: false,
            exit_code: 1,
        }),
{
    ErrorReply {
        schema_version: 1,
        code: "WORKFLOW_REQUEST_FAILED",
        message,
        technical_detail: None,
        retryable: false,
        exit_code: 1,
    }
}

/// Waiting for the end failed. Where only the time ran out, the task goes on
/// and the caller may wait again; any other failure is passed on.
pub fn wait_failed(detail: String) -> (r: Option<ErrorReply>)
    ensures
        match r {
            Some(reply) => contains(detail@, "WORKFLOW_WAIT_TIMEOUT"@) && reply@ == (ErrorView {
                schema_version: 1,
                code: "WORKFLOW_WAIT_TIMEOUT"@,
                message: "等待后台处理超时；任务仍会继续执行"@,
                technical_detail: Some(detail@),
                retryable: true,
                exit_code: 5,
            }),
            None => !contains(detail@, "WORKFLOW_WAIT_TIMEOUT"@),
        },
{
    if !contains_text(&chars_of(&detail), "WORKFLOW_WAIT_TIMEOUT") {
        return None;
    }
    Some(
        ErrorReply {
            schema_version: 1,
            code: "WORKFLOW_WAIT_TIMEOUT",
            message: "等待后台处理超时；任务仍会继续执行".to_owned(),
            technical_detail: Some(detail),
            retryable: true,
            exit_code: 5,
        },
    )
}

pub open spec fn kind_of_failure(snapshot: TaskSnapshot) -> ErrorKind {
    match snapshot.error_kind {
        Some(kind) => kind,
        None => ErrorKind::Storage,
    }
}

/// How a task that ended is answered: nothing to complain of where it
/// succeeded.
pub fn task_failure(snapshot: &TaskSnapshot) -> (r: Option<ErrorReply>)
    ensures
        match r {
            Some(reply) => snapshot.status !is Succeeded && reply@ == ({
                let kind = kind_of_failure(*snapshot);
                ErrorView {
                    schema_version: 1,
                    code: error_code(kind),
                    message: match snapshot.user_message {
                        Some(text) => text@,
                        None => "知识处理失败"@,
                    },
                    technical_detail: text_opt(snapshot.technical_detail),
                    retryable: kind is Transient,
                    exit_code: failure_code(kind),
                }
            }),
            None => snapshot.status is Succeeded,
        },
{
    match snapshot.status {
        TaskStatus::Succeeded => {
            return None;
        },
        _ => {},
    }
    let kind: ErrorKind = match snapshot.error_kind {
        Some(kind) => kind,
        None => ErrorKind::Storage,
    };
    Some(
        ErrorReply {
            schema_version: 1,
            code: kind.code(),
            message: match &snapshot.user_message {
                Some(text) => text.clone(),
                None => "知识处理失败".to_owned(),
            },
            technical_detail: copy_text(&snapshot.technical_detail),
            retryable: match kind {
                ErrorKind::Transient => true,
                _ => false,
            },
            exit_code: match kind {
                ErrorKind::Input => 3,
                ErrorKind::Authentication | ErrorKind::Security => 4,
                ErrorKind::Transient => 5,
                ErrorKind::ProviderOutput | ErrorKind::Storage | ErrorKind::Interrupted => 1,
            },
        },
    )
}

// ---- what the answers tell ---------------------------------------------------------------------------------

proof fn lemma_padded(text: Seq<char>, width: nat)
    ensures
        padded(text, width).len() == (if text.len() >= width {
            text.len()
        } else {
            width
        }),
        padded(text, width).take(text.len() as int) == text,
        forall|k: int|
            text.len() <= k < padded(text, width).len() ==> #[trigger] padded(text, width)[k] == ' ',
    decreases width - text.len(),
{
    if text.len() < width {
        let longer = text.push(' ');
        lemma_padded(longer, width);
        let p = padded(text, width);
        assert(p.take(text.len() as int) =~= p.take(longer.len() as int).take(text.len() as int));
        assert(longer.take(text.len() as int) =~= text);
        assert(p[text.len() as int] == p.take(longer.len() as int)[text.len() as int]);
    } else {
        assert(text.take(text.len() as int) =~= text);
    }
}

/// The line of a feed begins with its number and its unread articles, in
/// columns, and ends with its title, or with its address where it has none.
/// Between them it says that the feed is disabled exactly where it is, and
/// that it is in trouble exactly where it is enabled and has failed.
pub proof fn lines_tell_disabled_and_failing_feeds(feeds: Seq<(Feed, i64)>, i: int)
    requires
        0 <= i < feeds.len(),
    ensures
        ({
            let (feed, unread) = feeds[i];
            let shown = feed_lines(feeds)[i];
            let head = "#"@ + padded(signed(feed.id as int), 3) + " 未读 "@ + padded(
                signed(unread as int),
                4,
            ) + " "@;
            let title = match feed.title {
                Some(title) => title@,
                None => feed.url@,
            };
            let between = shown.subrange(
                head.len() as int,
                shown.len() - title.len() - 1,
            );
            &&& feed_lines(feeds).len() == feeds.len()
            &&& head.len() + title.len() + 1 <= shown.len()
            &&& shown.take(head.len() as int) == head
            &&& shown.skip(shown.len() - title.len()) == title
            &&& shown[shown.len() - title.len() - 1] == ' '
            &&& between == "[已禁用]"@ <==> feed.disabled
            &&& between == "[⚠]"@ <==> !feed.disabled && feed.fail_count > 0
            &&& between.len() == 0 <==> !feed.disabled && feed.fail_count <= 0
        }),
{
    reveal_strlit("[已禁用]");
    reveal_strlit("[⚠]");
    reveal_strlit("");
    reveal_strlit(" ");
    let (feed, unread) = feeds[i];
    let shown = feed_lines(feeds)[i];
    let head = "#"@ + padded(signed(feed.id as int), 3) + " 未读 "@ + padded(
        signed(unread as int),
        4,
    ) + " "@;
    let title = match feed.title {
        Some(title) => title@,
        None => feed.url@,
    };
    let flag = if feed.disabled {
        "[已禁用]"@
    } else if feed.fail_count > 0 {
        "[⚠]"@
    } else {
        ""@
    };
    assert(shown == head + flag + " "@ + title);
    assert(shown.take(head.len() as int) =~= head);
    assert(shown.skip(shown.len() - title.len()) =~= title);
    assert(shown.subrange(head.len() as int, shown.len() - title.len() - 1) =~= flag);
    assert("[已禁用]"@.len() == 5 && "[⚠]"@.len() == 3);
}

/// A number stands at the left of its column, with blanks behind it.
pub proof fn columns_are_filled_with_blanks(text: Seq<char>, width: nat)
    ensures
        padded(text, width).len() == (if text.len() >= width {
            text.len()
        } else {
            width
        }),
        padded(text, width).take(text.len() as int) == text,
        forall|k: int|
            text.len() <= k < padded(text, width).len() ==> #[trigger] padded(text, width)[k] == ' ',
{
    lemma_padded(text, width);
}

/// Only full success is answered with a plain exit. What succeeded in part has
/// a code of its own, and so has each fault that a caller can act on.
pub proof fn exit_codes_tell_the_outcome(
    status: RefreshRunStatus,
    refresh: Option<InitialRefreshOutcome>,
    kind: ErrorKind,
)
    ensures
        run_code(status) == 0 <==> status is Succeeded,
        run_code(status) == 2 <==> status is Degraded,
        run_code(status) == 1 <==> status is Failed || status is Interrupted || status is Fetching
            || status is Committing,
        change_code(refresh) == 2 <==> refresh is Some && refresh->0 is Degraded,
        change_code(refresh) == 0 <==> !(refresh is Some && refresh->0 is Degraded),
        failure_code(kind) == 3 <==> kind is Input,
        failure_code(kind) == 4 <==> kind is Authentication || kind is Security,
        failure_code(kind) == 5 <==> kind is Transient,
        failure_code(kind) == 1 <==> kind is ProviderOutput || kind is Storage
            || kind is Interrupted,
{
}

/// A feed is always added. Where its first fetch failed the answer says so
/// twice, for the reader and as an error, with the reason that the refresh
/// gives, or else the feed; the exit then tells a success in part. Otherwise
/// the answer names the feed and nothing is wrong.
pub proof fn added_feeds_tell_their_first_fetch(feed: Feed, refresh: Option<InitialRefreshOutcome>)
    ensures
        ({
            let r = added_reply(feed, refresh);
            let number = signed(feed.id as int);
            let name = match feed.title {
                Some(title) => title@,
                None => feed.url@,
            };
            &&& r.out.len() == 1
            &&& r.code == 2 <==> refresh is Some && refresh->0 is Degraded
            &&& r.err.len() == 1 <==> refresh is Some && refresh->0 is Degraded
            &&& !(refresh is Some && refresh->0 is Degraded) ==> r.code == 0 && r.err.len() == 0
                && r.out[0] == "已添加 #"@ + number + ": "@ + name
            &&& refresh matches Some(InitialRefreshOutcome::Degraded { technical_detail }) ==> {
                let reason = match (technical_detail, feed.last_error) {
                    (Some(text), _) => text@,
                    (None, Some(text)) => text@,
                    (None, None) => "首次抓取失败"@,
                };
                r.out[0] == "已添加 #"@ + number + "，但首次抓取失败: "@ + reason && r.err[0]
                    == "刷新失败 #"@ + number + " "@ + feed.url@ + ": "@ + reason
            }
        }),
{
}

/// Enabling a feed that is there says so, and that its refresh failed where it
/// did. A feed that is not there is not found.
pub proof fn enabled_feeds_tell_their_refresh(
    id: i64,
    disposition: ChangeDisposition,
    refresh: Option<InitialRefreshOutcome>,
)
    ensures
        ({
            let r = enabled_reply(id, disposition, refresh);
            &&& disposition is NotFound ==> r.out == seq!["未找到"@] && r.err.len() == 0 && r.code
                == 0
            &&& !(disposition is NotFound) ==> r.out == seq!["已启用"@]
            &&& !(disposition is NotFound) && !(refresh is Some && refresh->0 is Degraded)
                ==> r.err.len() == 0 && r.code == 0
            &&& !(disposition is NotFound) ==> (refresh matches Some(
                InitialRefreshOutcome::Degraded { technical_detail },
            ) ==> r.code == 2 && r.err == seq![
                "刷新失败 #"@ + signed(id as int) + ": "@ + (match technical_detail {
                    Some(text) => text@,
                    None => "订阅刷新失败"@,
                }),
            ])
        }),
{
}

/// A refresh tells its four counts in order.
pub proof fn refreshes_tell_their_counts(run: RefreshRunSnapshot)
    ensures
        run_text(run) == "刷新 "@ + decimal(run.target_count as nat) + " 个订阅，完成 "@ + decimal(
            run.completed_count as nat,
        ) + " 个，失败 "@ + decimal(run.failed_feed_count as nat) + " 个，新增 "@ + decimal(
            run.new_article_count as nat,
        ) + " 篇"@,
{
}

/// Each feed that failed has a line of its own, with its number, its title or
/// address, and the reason; feeds that did not fail have none. A failure of the
/// whole run comes last.
pub proof fn every_failed_feed_is_told(run: RefreshRunSnapshot, i: int)
    requires
        0 <= i < run.feeds@.len(),
    ensures
        run.feeds@[i].failure matches Some(failure) ==> run_failures(run).contains(
            "刷新失败 #"@ + signed(run.feeds@[i].feed_id as int) + " "@ + (match run.feeds@[i].title {
                Some(title) => title@,
                None => run.feeds@[i].url@,
            }) + " ["@ + failure.kind@ + "]: "@ + failure.technical_detail@,
        ),
        run_failures(run).len() == run.feeds@.filter(|f: FeedRefresh| f.failure is Some).len()
            + if run.module_failure is Some {
            1int
        } else {
            0
        },
        run.module_failure matches Some(failure) ==> run_failures(run).last() == "刷新模块失败 ["@
            + failure.kind@ + "]: "@ + failure.technical_detail@,
{
    lemma_feed_failures(run.feeds@, i);
    if run.feeds@[i].failure is Some {
        let feeds = feed_failures(run.feeds@);
        let text = feed_failure_text(run.feeds@[i]);
        let k = choose|k: int| 0 <= k < feeds.len() && feeds[k] == text;
        assert(run_failures(run)[k] == text);
    }
}

proof fn lemma_feed_failures(feeds: Seq<FeedRefresh>, i: int)
    ensures
        0 <= i < feeds.len() && feeds[i].failure is Some ==> feed_failures(feeds).contains(
            feed_failure_text(feeds[i]),
        ),
        feed_failures(feeds).len() == feeds.filter(|f: FeedRefresh| f.failure is Some).len(),
    decreases feeds.len(),
{
    reveal(Seq::filter);
    if feeds.len() > 0 {
        let rest = feeds.drop_last();
        let before = feed_failures(rest);
        let all = feed_failures(feeds);
        lemma_feed_failures(rest, i);
        if 0 <= i < feeds.len() && feeds[i].failure is Some {
            if i < rest.len() {
                assert(rest[i] == feeds[i]);
                let text = feed_failure_text(feeds[i]);
                let k = choose|k: int| 0 <= k < before.len() && before[k] == text;
                assert(all[k] == text);
            } else {
                assert(all[all.len() - 1] == feed_failure_text(feeds[i]));
            }
        }
    }
}

/// A search from the command line looks where it was told to, for what it was
/// told to.
pub proof fn searches_look_where_they_are_told(
    scope: ResourceScope,
    result_type: ResourceResultType,
)
    ensures
        scope_of(scope) is Curated <==> scope is Curated,
        scope_of(scope) is AllArticles <==> scope is All,
        scope_of(scope) is Archive <==> scope is Archive,
        type_of(result_type) is All <==> result_type is All,
        type_of(result_type) is Resource <==> result_type is Resource,
        type_of(result_type) is Article <==> result_type is Article,
{
}

/// A library that cannot be opened is under maintenance exactly where the
/// reason speaks of a migration, the schema or the user version.
pub proof fn maintenance_is_told_by_its_reason(detail: Seq<char>)
    ensures
        under_maintenance(detail) <==> contains(detail, "migration"@) || contains(
            detail,
            "schema"@,
        ) || contains(detail, "user_version"@),
{
}

/// Programs read the same words for the same thing.
pub proof fn programs_read_fixed_words(
    kind: SearchFailureKind,
    primary: PrimaryIdentity,
    disposition: RequestDisposition,
    snapshot: TaskSnapshot,
)
    ensures
        kind is Input ==> search_code(kind) == "LIBRARY_SEARCH_INPUT"@,
        kind is Maintenance ==> search_code(kind) == "LIBRARY_SEARCH_MAINTENANCE"@,
        kind is Storage ==> search_code(kind) == "LIBRARY_SEARCH_STORAGE"@,
        kind is Index ==> search_code(kind) == "LIBRARY_SEARCH_INDEX"@,
        primary is Resource ==> identity_kind(primary) == "resource"@,
        primary is Article ==> identity_kind(primary) == "article"@,
        disposition is Created ==> disposition_text(disposition) == "created"@,
        disposition is Existing ==> disposition_text(disposition) == "existing"@,
        disposition is Retried ==> disposition_text(disposition) == "retried"@,
        snapshot.error_kind matches Some(known) ==> kind_of_failure(snapshot) == known,
        snapshot.error_kind is None ==> kind_of_failure(snapshot) is Storage,
{
}

/// Without feeds the list says how to add one.
pub proof fn an_empty_list_says_how_to_add(feeds: Seq<(Feed, i64)>)
    requires
        feeds.len() == 0,
    ensures
        feed_lines(feeds) == seq!["还没有订阅源，用 `shiyue-cli add <url>` 添加。"@],
{
}

} // verus!
